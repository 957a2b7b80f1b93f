use finalproject::bounds::Bounds;
use finalproject::category::PriceCategoryPolicy;
use finalproject::filter::{
    collect_column, filter_column, filter_outliers, outlier_bounds, OutlierBounds,
};
use finalproject::percentile::EmptyInputError;
use finalproject::pipeline::{
    build_category_encoding, clean_records, collect_category, emit_records, encode_records,
    CategoricalColumn,
};
use finalproject::record::{AirbnbCleanedRecord, AirbnbRecord, Column};
use finalproject::PriceThresholds;

fn listing(
    group: Option<&str>,
    room_type: Option<&str>,
    price: Option<u64>,
    minimum_nights: Option<u64>,
    number_of_reviews: Option<u64>,
    availability_365: Option<u64>,
) -> AirbnbRecord {
    AirbnbRecord {
        neighbourhood_group: group.map(|text| text.to_string()),
        neighbourhood: None,
        room_type: room_type.map(|text| text.to_string()),
        price,
        minimum_nights,
        number_of_reviews,
        availability_365,
        neighbourhood_group_encoded: None,
        neighbourhood_encoded: None,
        room_type_encoded: None,
        price_category: None,
    }
}

fn row(group: u64, room: u8, category: &str, nights: u64, reviews: u64) -> AirbnbCleanedRecord {
    AirbnbCleanedRecord {
        neighbourhood_group_encoded: group,
        neighbourhood_encoded: 0,
        room_type_encoded: room,
        price_category: category.to_string(),
        minimum_nights: nights,
        number_of_reviews: reviews,
    }
}

fn sample() -> Vec<AirbnbRecord> {
    vec![
        listing(Some("Brooklyn"), Some("Entire home/apt"), Some(15_000), Some(2), Some(10), Some(365)),
        listing(Some("Manhattan"), Some("Private room"), Some(10_000), Some(3), Some(50), Some(180)),
        listing(Some("Queens"), Some("Shared room"), Some(5_000), Some(1), Some(5), Some(365)),
    ]
}

/// Ten ordinary listings in two groups, and five that each break one rule.
fn mixed() -> Vec<AirbnbRecord> {
    let mut listings = Vec::new();
    for i in 0..10u64 {
        let group = if i % 2 == 0 { "Bronx" } else { "Queens" };
        listings.push(listing(
            Some(group),
            Some("Private room"),
            Some(5_000 + 1_000 * i),
            Some(1 + i % 3),
            Some(10 + i),
            Some(100 + 10 * i),
        ));
    }
    listings.push(listing(Some("Bronx"), Some("Private room"), Some(900_000), Some(2), Some(12), Some(120)));
    listings.push(listing(Some("Bronx"), Some("Private room"), Some(7_000), Some(400), Some(12), Some(120)));
    listings.push(listing(Some("Bronx"), Some("Private room"), None, Some(2), Some(12), Some(120)));
    listings.push(listing(None, Some("Private room"), Some(7_000), Some(2), Some(12), Some(120)));
    listings.push(listing(Some("Harlem"), Some("Private room"), Some(7_000), Some(2), None, Some(120)));
    listings
}

#[test]
fn test_data_pipeline() {
    let listings = sample();
    assert!(clean_records(&listings, PriceCategoryPolicy::Percentile).is_ok());
    assert!(clean_records(&listings, PriceCategoryPolicy::Fixed).is_ok());
}

#[test]
fn the_sample_run_drops_the_listing_with_the_odd_availability() {
    // availabilities 365, 180, 365: both quartiles are 365, so 180 is an outlier
    let listings = sample();
    let bounds = outlier_bounds(&listings).unwrap();
    assert_eq!(bounds.availability_365, Bounds { twice_lower: 730, twice_upper: 730 });
    let rows = clean_records(&listings, PriceCategoryPolicy::Fixed).unwrap();
    assert_eq!(rows, vec![row(0, 0, "medium", 2, 10), row(2, 2, "low", 1, 5)]);
}

#[test]
fn the_sample_run_under_the_percentile_policy() {
    // the kept prices are 15000 and 5000: the limits are 5000 and 15000
    let rows = clean_records(&sample(), PriceCategoryPolicy::Percentile).unwrap();
    assert_eq!(rows, vec![row(0, 0, "high", 2, 10), row(2, 2, "medium", 1, 5)]);
}

#[test]
fn the_bounds_of_each_column_come_from_all_its_values() {
    let bounds = outlier_bounds(&sample()).unwrap();
    assert_eq!(
        bounds,
        OutlierBounds {
            // nights 1, 2, 3: q1 = 2, q3 = 3
            minimum_nights: Bounds { twice_lower: 1, twice_upper: 9 },
            // reviews 5, 10, 50: q1 = 10, q3 = 50
            number_of_reviews: Bounds { twice_lower: 0, twice_upper: 220 },
            // prices 5000, 10000, 15000: q1 = 10000, q3 = 15000
            price: Bounds { twice_lower: 5_000, twice_upper: 45_000 },
            availability_365: Bounds { twice_lower: 730, twice_upper: 730 },
        }
    );
}

#[test]
fn a_run_without_listings_fails() {
    assert_eq!(clean_records(&[], PriceCategoryPolicy::Fixed), Err(EmptyInputError));
    assert_eq!(clean_records(&[], PriceCategoryPolicy::Percentile), Err(EmptyInputError));
    assert_eq!(outlier_bounds(&[]), Err(EmptyInputError));
}

#[test]
fn a_run_with_an_empty_column_fails() {
    let mut listings = sample();
    for record in listings.iter_mut() {
        record.number_of_reviews = None;
    }
    assert_eq!(outlier_bounds(&listings), Err(EmptyInputError));
    assert_eq!(clean_records(&listings, PriceCategoryPolicy::Fixed), Err(EmptyInputError));
}

#[test]
fn a_run_that_keeps_nothing_fails_only_under_the_percentile_policy() {
    // each listing lacks a field that the other one has
    let listings = vec![
        listing(Some("Bronx"), None, Some(100), Some(1), None, None),
        listing(Some("Bronx"), None, None, None, Some(1), Some(1)),
    ];
    assert!(outlier_bounds(&listings).is_ok());
    assert_eq!(clean_records(&listings, PriceCategoryPolicy::Fixed), Ok(Vec::new()));
    assert_eq!(clean_records(&listings, PriceCategoryPolicy::Percentile), Err(EmptyInputError));
}

#[test]
fn a_column_is_collected_in_the_order_of_the_listings() {
    let listings = mixed();
    assert_eq!(collect_column(&sample(), Column::Price), vec![15_000, 10_000, 5_000]);
    assert_eq!(collect_column(&sample(), Column::Availability365), vec![365, 180, 365]);
    assert_eq!(collect_column(&listings, Column::Price).len(), 14);
    assert_eq!(collect_column(&listings, Column::NumberOfReviews).len(), 14);
    assert_eq!(collect_column(&listings, Column::MinimumNights).len(), 15);
    assert_eq!(collect_column(&[], Column::Price), Vec::<u64>::new());
    assert_eq!(
        collect_category(&sample(), CategoricalColumn::NeighbourhoodGroup),
        vec!["Brooklyn".to_string(), "Manhattan".to_string(), "Queens".to_string()]
    );
    assert_eq!(
        collect_category(&sample(), CategoricalColumn::Neighbourhood),
        Vec::<String>::new()
    );
}

#[test]
fn the_codes_of_a_category_come_from_all_listings() {
    let listings = mixed();
    let groups = build_category_encoding(&listings, CategoricalColumn::NeighbourhoodGroup);
    assert_eq!(groups.len(), 3);
    assert_eq!(groups.get(&"Bronx".to_string()), Some(0));
    assert_eq!(groups.get(&"Queens".to_string()), Some(1));
    // the only listing of Harlem is dropped later, and still has a code
    assert_eq!(groups.get(&"Harlem".to_string()), Some(2));
    let neighbourhoods = build_category_encoding(&listings, CategoricalColumn::Neighbourhood);
    assert_eq!(neighbourhoods.len(), 0);
}

#[test]
fn the_filter_keeps_a_listing_only_if_it_passes_every_bound() {
    let listings = mixed();
    let bounds = outlier_bounds(&listings).unwrap();
    let kept = filter_outliers(&listings, &bounds);
    // the price outlier, the nights outlier, and the listings without a
    // price and without reviews go; the listing without a group stays
    assert_eq!(kept.len(), 11);
    assert_eq!(&kept[..10], &listings[..10]);
    assert_eq!(kept[10], listings[13]);
    for record in &kept {
        assert!(bounds.contains(record));
    }
    for record in &listings {
        assert_eq!(bounds.contains(record), kept.contains(record));
    }
}

#[test]
fn filtering_again_changes_nothing() {
    let listings = mixed();
    let bounds = outlier_bounds(&listings).unwrap();
    let once = filter_outliers(&listings, &bounds);
    let twice = filter_outliers(&once, &bounds);
    assert_eq!(once, twice);
    let by_price = filter_column(&listings, Column::Price, &bounds.price);
    assert_eq!(filter_column(&by_price, Column::Price, &bounds.price), by_price);
}

#[test]
fn filtering_column_after_column_is_filtering_by_all() {
    let listings = mixed();
    let bounds = outlier_bounds(&listings).unwrap();
    let nights = filter_column(&listings, Column::MinimumNights, &bounds.minimum_nights);
    let reviews = filter_column(&nights, Column::NumberOfReviews, &bounds.number_of_reviews);
    let price = filter_column(&reviews, Column::Price, &bounds.price);
    let all = filter_column(&price, Column::Availability365, &bounds.availability_365);
    assert_eq!(all, filter_outliers(&listings, &bounds));
}

#[test]
fn a_column_filter_drops_listings_without_the_field() {
    let listings = vec![
        listing(None, None, None, Some(5), None, None),
        listing(None, None, Some(10), None, None, None),
        listing(None, None, Some(30), None, None, None),
    ];
    let bounds = Bounds { twice_lower: 0, twice_upper: 40 };
    let kept = filter_column(&listings, Column::Price, &bounds);
    assert_eq!(kept, vec![listings[1].clone()]);
    let everything = Bounds { twice_lower: 0, twice_upper: u128::MAX };
    assert_eq!(filter_column(&listings, Column::Price, &everything).len(), 2);
    assert_eq!(filter_column(&listings, Column::MinimumNights, &everything).len(), 1);
}

#[test]
fn every_listing_is_encoded_in_place() {
    let mut listings = sample();
    let groups = build_category_encoding(&listings, CategoricalColumn::NeighbourhoodGroup);
    let limits = PriceThresholds { low_below: 10_000, medium_below: 15_000 };
    encode_records(&mut listings, &groups, None, &limits);
    let encoded: Vec<(Option<u64>, Option<u8>, Option<String>)> = listings
        .iter()
        .map(|record| {
            (
                record.neighbourhood_group_encoded,
                record.room_type_encoded,
                record.price_category.clone(),
            )
        })
        .collect();
    assert_eq!(
        encoded,
        vec![
            (Some(0), Some(0), Some("high".to_string())),
            (Some(1), Some(1), Some("medium".to_string())),
            (Some(2), Some(2), Some("low".to_string())),
        ]
    );
    assert_eq!(listings.len(), 3);
}

#[test]
fn rows_are_written_in_order_for_complete_listings_only() {
    let mut listings = mixed();
    let groups = build_category_encoding(&listings, CategoricalColumn::NeighbourhoodGroup);
    let limits = PriceThresholds { low_below: 7_000, medium_below: 800_000 };
    encode_records(&mut listings, &groups, None, &limits);
    let rows = emit_records(&listings);
    assert_eq!(rows.len(), 13);
    assert_eq!(rows[0], row(0, 1, "low", 1, 10));
    assert_eq!(rows[1], row(1, 1, "low", 2, 11));
    assert_eq!(rows[2], row(0, 1, "medium", 3, 12));
    assert_eq!(rows[10], row(0, 1, "high", 2, 12));
    assert_eq!(rows[12], row(2, 1, "medium", 2, 0));
    assert_eq!(emit_records(&[]), Vec::new());
}

#[test]
fn a_row_is_written_exactly_for_complete_listings_within_bounds() {
    let listings = mixed();
    let bounds = outlier_bounds(&listings).unwrap();
    let rows = clean_records(&listings, PriceCategoryPolicy::Fixed).unwrap();
    let written: Vec<&AirbnbRecord> = listings
        .iter()
        .filter(|record| {
            record.price.is_some()
                && record.neighbourhood_group.is_some()
                && bounds.contains(record)
        })
        .collect();
    assert_eq!(written.len(), 10);
    assert_eq!(rows.len(), written.len());
    for (row, source) in rows.iter().zip(written.iter()) {
        assert_eq!(Some(row.minimum_nights), source.minimum_nights);
        assert_eq!(Some(row.number_of_reviews), source.number_of_reviews);
        let expected_group = if source.neighbourhood_group.as_deref() == Some("Bronx") { 0 } else { 1 };
        assert_eq!(row.neighbourhood_group_encoded, expected_group);
        assert_eq!(row.room_type_encoded, 1);
        let price = source.price.unwrap();
        let label = if price < 10_000 {
            "low"
        } else if price < 20_000 {
            "medium"
        } else {
            "high"
        };
        assert_eq!(row.price_category, label);
    }
}

#[test]
fn the_percentile_limits_come_from_the_kept_listings() {
    // the price outlier of 9000.00 would raise the limits if it counted
    let listings = mixed();
    let rows = clean_records(&listings, PriceCategoryPolicy::Percentile).unwrap();
    // kept prices 5000, 6000, ..., 14000 and 7000 of the listing without a
    // group: the ranks are 3 and 7 of 11, the limits 7000 and 11000
    let labels: Vec<&str> = rows.iter().map(|row| row.price_category.as_str()).collect();
    assert_eq!(
        labels,
        vec!["low", "low", "medium", "medium", "medium", "medium", "high", "high", "high", "high"]
    );
}

#[test]
fn a_neighbourhood_column_is_encoded_when_present() {
    let mut listings = sample();
    listings[0].neighbourhood = Some("Kensington".to_string());
    listings[1].neighbourhood = Some("Midtown".to_string());
    listings[2].neighbourhood = Some("Astoria".to_string());
    listings[1].availability_365 = Some(365);
    let rows = clean_records(&listings, PriceCategoryPolicy::Fixed).unwrap();
    let codes: Vec<(u64, u64)> = rows
        .iter()
        .map(|row| (row.neighbourhood_group_encoded, row.neighbourhood_encoded))
        .collect();
    assert_eq!(codes, vec![(0, 0), (1, 1), (2, 2)]);
    let categories: Vec<&str> = rows.iter().map(|row| row.price_category.as_str()).collect();
    assert_eq!(categories, vec!["medium", "medium", "low"]);
    let rooms: Vec<u8> = rows.iter().map(|row| row.room_type_encoded).collect();
    assert_eq!(rooms, vec![0, 1, 2]);
}

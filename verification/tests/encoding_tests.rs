use finalproject::category::{
    categorize_price, encode_room_type, price_thresholds, PriceCategory, PriceCategoryPolicy,
    PriceThresholds, FIXED_LOW_BELOW, FIXED_MEDIUM_BELOW, PRICE_SCALE, UNKNOWN_ROOM_TYPE,
};
use finalproject::encoding::{build_encoding, EncodingMap};
use finalproject::percentile::EmptyInputError;

fn strings(values: &[&str]) -> Vec<String> {
    values.iter().map(|value| value.to_string()).collect()
}

#[test]
fn encoding_gives_codes_in_order_of_first_occurrence() {
    let map = build_encoding(&strings(&["Queens", "Bronx", "Queens", "Brooklyn", "Bronx"]));
    assert_eq!(map.len(), 3);
    assert_eq!(map.get(&"Queens".to_string()), Some(0));
    assert_eq!(map.get(&"Bronx".to_string()), Some(1));
    assert_eq!(map.get(&"Brooklyn".to_string()), Some(2));
}

#[test]
fn encoding_has_no_code_for_an_unseen_value() {
    let map = build_encoding(&strings(&["Queens", "Bronx"]));
    assert_eq!(map.get(&"Manhattan".to_string()), None);
    assert_eq!(map.get(&"queens".to_string()), None);
    assert_eq!(map.get(&"".to_string()), None);
}

#[test]
fn encoding_of_nothing_is_empty() {
    let map = build_encoding(&[]);
    assert_eq!(map.len(), 0);
    assert_eq!(map.get(&"Queens".to_string()), None);
    assert_eq!(EncodingMap::new().len(), 0);
}

#[test]
fn encoding_treats_the_empty_string_as_a_value() {
    let map = build_encoding(&strings(&["", "a", ""]));
    assert_eq!(map.len(), 2);
    assert_eq!(map.get(&"".to_string()), Some(0));
    assert_eq!(map.get(&"a".to_string()), Some(1));
}

#[test]
fn encoding_is_a_bijection_onto_a_dense_range() {
    let values: Vec<String> = (0..600u32).map(|i| format!("area-{}", (i * 37) % 300)).collect();
    let map = build_encoding(&values);
    assert_eq!(map.len(), 300);
    let mut seen = vec![false; 300];
    for value in &values {
        let code = map.get(value).unwrap() as usize;
        assert!(code < 300);
        seen[code] = true;
    }
    assert!(seen.iter().all(|used| *used));
    for i in 0..300u32 {
        for j in (i + 1)..300u32 {
            assert_ne!(map.get(&format!("area-{}", i)), map.get(&format!("area-{}", j)));
        }
    }
}

#[test]
fn encoding_insert_keeps_old_codes_and_appends_new_ones() {
    let mut map = EncodingMap::new();
    assert_eq!(map.insert(&"b".to_string()), 0);
    assert_eq!(map.insert(&"a".to_string()), 1);
    assert_eq!(map.insert(&"b".to_string()), 0);
    assert_eq!(map.insert(&"c".to_string()), 2);
    assert_eq!(map.len(), 3);
    assert_eq!(map.get(&"a".to_string()), Some(1));
}

#[test]
fn room_type_has_a_code_for_every_input() {
    assert_eq!(encode_room_type(&Some("Entire home/apt".to_string())), 0);
    assert_eq!(encode_room_type(&Some("Private room".to_string())), 1);
    assert_eq!(encode_room_type(&Some("Shared room".to_string())), 2);
    assert_eq!(encode_room_type(&Some("Hotel room".to_string())), 3);
    assert_eq!(encode_room_type(&Some("".to_string())), 3);
    assert_eq!(encode_room_type(&Some("private room".to_string())), 3);
    assert_eq!(encode_room_type(&Some("Private room ".to_string())), 3);
    assert_eq!(encode_room_type(&None), 3);
    assert_eq!(UNKNOWN_ROOM_TYPE, 3);
}

#[test]
fn fixed_policy_parts_prices_at_one_and_two_hundred() {
    assert_eq!(PRICE_SCALE, 100);
    assert_eq!(FIXED_LOW_BELOW, 100 * PRICE_SCALE);
    assert_eq!(FIXED_MEDIUM_BELOW, 200 * PRICE_SCALE);
    let thresholds = price_thresholds(PriceCategoryPolicy::Fixed, &[]).unwrap();
    assert_eq!(thresholds, PriceThresholds { low_below: 10_000, medium_below: 20_000 });
    assert_eq!(categorize_price(0, &thresholds), PriceCategory::Low);
    assert_eq!(categorize_price(9_999, &thresholds), PriceCategory::Low);
    assert_eq!(categorize_price(10_000, &thresholds), PriceCategory::Medium);
    assert_eq!(categorize_price(19_999, &thresholds), PriceCategory::Medium);
    assert_eq!(categorize_price(20_000, &thresholds), PriceCategory::High);
    assert_eq!(categorize_price(u64::MAX, &thresholds), PriceCategory::High);
}

#[test]
fn fixed_policy_ignores_the_prices() {
    let prices = [1u64, 2, 3];
    assert_eq!(
        price_thresholds(PriceCategoryPolicy::Fixed, &prices),
        price_thresholds(PriceCategoryPolicy::Fixed, &[])
    );
}

#[test]
fn percentile_policy_takes_percentiles_33_and_66() {
    // the ranks are 3 and 7 of 11 values
    let prices = [110u64, 100, 90, 80, 70, 60, 50, 40, 30, 20, 10];
    let thresholds = price_thresholds(PriceCategoryPolicy::Percentile, &prices).unwrap();
    assert_eq!(thresholds, PriceThresholds { low_below: 40, medium_below: 80 });
    assert_eq!(categorize_price(39, &thresholds), PriceCategory::Low);
    assert_eq!(categorize_price(40, &thresholds), PriceCategory::Medium);
    assert_eq!(categorize_price(79, &thresholds), PriceCategory::Medium);
    assert_eq!(categorize_price(80, &thresholds), PriceCategory::High);
}

#[test]
fn percentile_policy_fails_without_prices() {
    assert_eq!(price_thresholds(PriceCategoryPolicy::Percentile, &[]), Err(EmptyInputError));
}

#[test]
fn equal_limits_leave_no_medium_price() {
    let thresholds = price_thresholds(PriceCategoryPolicy::Percentile, &[500]).unwrap();
    assert_eq!(thresholds, PriceThresholds { low_below: 500, medium_below: 500 });
    assert_eq!(categorize_price(499, &thresholds), PriceCategory::Low);
    assert_eq!(categorize_price(500, &thresholds), PriceCategory::High);
}

#[test]
fn price_category_labels_and_classes() {
    assert_eq!(PriceCategory::Low.to_label(), "low");
    assert_eq!(PriceCategory::Medium.to_label(), "medium");
    assert_eq!(PriceCategory::High.to_label(), "high");
    assert_eq!(PriceCategory::Low.target(), 0);
    assert_eq!(PriceCategory::Medium.target(), 1);
    assert_eq!(PriceCategory::High.target(), 2);
    for category in [PriceCategory::Low, PriceCategory::Medium, PriceCategory::High] {
        assert_eq!(PriceCategory::from_label(&category.to_label()), Some(category));
    }
    assert_eq!(PriceCategory::from_label(&"Low".to_string()), None);
    assert_eq!(PriceCategory::from_label(&"".to_string()), None);
    assert_eq!(PriceCategory::from_label(&"cheap".to_string()), None);
}

#[test]
fn a_code_leads_back_to_its_value() {
    let map = build_encoding(&strings(&["Queens", "Bronx", "Queens"]));
    assert_eq!(map.decode(0), Some(&"Queens".to_string()));
    assert_eq!(map.decode(1), Some(&"Bronx".to_string()));
    assert_eq!(map.decode(2), None);
    assert_eq!(map.decode(u64::MAX), None);
    for code in 0..map.len() as u64 {
        assert_eq!(map.get(map.decode(code).unwrap()), Some(code));
    }
}

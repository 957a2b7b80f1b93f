use finalproject::percentile::{calculate_percentile, rank_for, sort_ascending, EmptyInputError};

#[test]
fn percentile_of_empty_column_is_an_error() {
    assert_eq!(calculate_percentile(&[], 50), Err(EmptyInputError));
    assert_eq!(calculate_percentile(&[], 0), Err(EmptyInputError));
}

#[test]
fn percentile_reads_the_nearest_rank() {
    let data = [30u64, 10, 20];
    assert_eq!(calculate_percentile(&data, 0), Ok(10));
    assert_eq!(calculate_percentile(&data, 24), Ok(10));
    assert_eq!(calculate_percentile(&data, 25), Ok(20));
    assert_eq!(calculate_percentile(&data, 50), Ok(20));
    assert_eq!(calculate_percentile(&data, 74), Ok(20));
    assert_eq!(calculate_percentile(&data, 75), Ok(30));
    assert_eq!(calculate_percentile(&data, 100), Ok(30));
}

#[test]
fn percentile_does_not_interpolate() {
    // A linear interpolation would give 15 for the median of two values.
    let data = [10u64, 20];
    assert_eq!(calculate_percentile(&data, 49), Ok(10));
    assert_eq!(calculate_percentile(&data, 50), Ok(20));
}

#[test]
fn percentile_rank_rounds_a_half_up() {
    // 25 / 100 * 2 = 0.5 and 75 / 100 * 2 = 1.5
    assert_eq!(rank_for(25, 3), 1);
    assert_eq!(rank_for(75, 3), 2);
    // 33 / 100 * 50 = 16.5, 66 / 100 * 50 = 33
    assert_eq!(rank_for(33, 51), 17);
    assert_eq!(rank_for(66, 51), 33);
    // 33 / 100 * 10 = 3.3, 66 / 100 * 10 = 6.6
    assert_eq!(rank_for(33, 11), 3);
    assert_eq!(rank_for(66, 11), 7);
}

#[test]
fn percentile_rank_stays_within_the_column() {
    assert_eq!(rank_for(0, 1), 0);
    assert_eq!(rank_for(100, 1), 0);
    assert_eq!(rank_for(100, 10), 9);
    assert_eq!(rank_for(101, 10), 9);
    assert_eq!(rank_for(u64::MAX, 10), 9);
    assert_eq!(rank_for(99, usize::MAX), usize::MAX - 1 - (usize::MAX - 1) / 100);
}

#[test]
fn percentile_above_hundred_reads_the_largest_value() {
    let data = [5u64, 1, 9, 3];
    assert_eq!(calculate_percentile(&data, 250), Ok(9));
}

#[test]
fn percentile_zero_is_the_minimum_and_hundred_the_maximum() {
    let columns: [&[u64]; 5] = [
        &[7],
        &[3, 3, 3],
        &[9, 1, 5, 5, 2, 8],
        &[0, u64::MAX, 17],
        &[100, 90, 80, 70, 60, 50, 40, 30, 20, 10],
    ];
    for column in columns {
        let min = *column.iter().min().unwrap();
        let max = *column.iter().max().unwrap();
        assert_eq!(calculate_percentile(column, 0), Ok(min));
        assert_eq!(calculate_percentile(column, 100), Ok(max));
    }
}

#[test]
fn percentile_of_a_single_value_is_that_value() {
    for p in [0u64, 1, 25, 50, 75, 99, 100] {
        assert_eq!(calculate_percentile(&[42], p), Ok(42));
    }
}

#[test]
fn percentile_does_not_depend_on_the_order_of_the_column() {
    let one = [4u64, 8, 15, 16, 23, 42];
    let other = [42u64, 4, 23, 8, 16, 15];
    for p in 0..=100u64 {
        assert_eq!(calculate_percentile(&one, p), calculate_percentile(&other, p));
    }
}

#[test]
fn percentile_never_falls_as_the_percentile_rises() {
    let data = [12u64, 7, 3, 99, 41, 41, 0, 18];
    let mut previous = 0u64;
    for p in 0..=100u64 {
        let value = calculate_percentile(&data, p).unwrap();
        assert!(previous <= value);
        assert!(data.contains(&value));
        previous = value;
    }
}

#[test]
fn sort_ascending_orders_and_keeps_every_value() {
    assert_eq!(sort_ascending(&[]), Vec::<u64>::new());
    assert_eq!(sort_ascending(&[1]), vec![1]);
    assert_eq!(sort_ascending(&[30, 10, 20]), vec![10, 20, 30]);
    assert_eq!(sort_ascending(&[2, 1, 2, 1, 2]), vec![1, 1, 2, 2, 2]);
    assert_eq!(sort_ascending(&[5, 4, 3, 2, 1, 0]), vec![0, 1, 2, 3, 4, 5]);
    let mut expected: Vec<u64> = (0..1000u64).map(|i| (i * 7919) % 1009).collect();
    let sorted = sort_ascending(&expected);
    expected.sort();
    assert_eq!(sorted, expected);
}

use bench_stats::{collect_data, mean, median, std_deviation, Error, Ratio};

fn ratio_denotes(r: Ratio, num: u128, den: u128) -> bool {
    // Equal as rational values: r.num / r.den == num / den.
    r.num * den == num * r.den
}

#[test]
fn mean_of_single_element_is_the_element() {
    let data = vec![7u64];
    let m = mean(&data).unwrap();
    assert!(ratio_denotes(m, 7, 1));

    let data = vec![u64::MAX];
    let m = mean(&data).unwrap();
    assert!(ratio_denotes(m, u64::MAX as u128, 1));
}

#[test]
fn mean_of_one_to_four_is_two_and_a_half() {
    let data = vec![1u64, 2, 3, 4];
    let m = mean(&data).unwrap();
    assert_eq!(m.num, 10);
    assert_eq!(m.den, 4);
    assert!(ratio_denotes(m, 5, 2));
}

#[test]
fn median_of_one_to_four_is_two_and_a_half() {
    let data = vec![1u64, 2, 3, 4];
    let m = median(&data).unwrap();
    assert_eq!(m.num, 5);
    assert_eq!(m.den, 2);
}

#[test]
fn median_of_one_to_three_is_two() {
    let data = vec![1u64, 2, 3];
    let m = median(&data).unwrap();
    assert_eq!(m.num, 2);
    assert_eq!(m.den, 1);
}

#[test]
fn median_sorts_a_copy_not_the_input() {
    let data = vec![9u64, 1, 5, 3];
    let before = data.clone();
    let first = median(&data).unwrap();
    let second = median(&data).unwrap();
    assert_eq!(first, second);
    assert_eq!(data, before);
    assert!(ratio_denotes(first, 4, 1));
}

#[test]
fn std_deviation_classic_population_example() {
    let data = vec![2u64, 4, 4, 4, 5, 5, 7, 9];
    let m = Ratio { num: 5, den: 1 };
    let sd = std_deviation(&data, m).unwrap();
    assert_eq!(sd.num, 16);
    assert_eq!(sd.den, 8);
    assert!(ratio_denotes(sd, 2, 1));
}

#[test]
fn constant_series_statistics_collapse_to_the_value() {
    for n in [1usize, 4, 5] {
        let data = vec![42u64; n];
        let m = mean(&data).unwrap();
        assert!(ratio_denotes(m, 42, 1));
        let md = median(&data).unwrap();
        assert!(ratio_denotes(md, 42, 1));
        let sd = std_deviation(&data, Ratio { num: 42, den: 1 }).unwrap();
        assert!(ratio_denotes(sd, 0, 1));
    }
}

#[test]
fn empty_series_fails_with_empty_series_in_all_three() {
    let data: Vec<u64> = vec![];
    assert_eq!(mean(&data), Err(Error::EmptySeries));
    assert_eq!(median(&data), Err(Error::EmptySeries));
    assert_eq!(
        std_deviation(&data, Ratio { num: 0, den: 1 }),
        Err(Error::EmptySeries)
    );
}

#[test]
fn std_deviation_with_fractional_mean() {
    // Series [1, 2] has mean 3/2; squared scaled differences are
    // (1*2 - 3)^2 + (2*2 - 3)^2 = 1 + 1 = 2, so the variance is
    // 2 / (2^2 * 2) = 1/4 and the standard deviation is 1/2.
    let data = vec![1u64, 2];
    let sd = std_deviation(&data, Ratio { num: 3, den: 2 }).unwrap();
    assert_eq!(sd.den, 4);
    assert_eq!(sd.num, 2);
    assert!(ratio_denotes(sd, 1, 2));
}

#[test]
fn collect_data_runs_the_operation_once_per_trial() {
    let counter = std::cell::Cell::new(0u64);
    let series = collect_data(
        || {
            counter.set(counter.get() + 1);
            counter.get() * 10
        },
        4,
    );
    assert_eq!(series, vec![10, 20, 30, 40]);
}

#[test]
fn collect_data_with_zero_trials_is_empty() {
    let series = collect_data(|| 1u64, 0);
    assert!(series.is_empty());
}

use statrs::statistics::Data;
use statrs::statistics::Max;
use statrs::statistics::Median;
use statrs::statistics::Min;
use statrs::statistics::OrderStatistics;
use uk_property_search_data::stats::Fraction;
use uk_property_search_data::stats::Stats;

fn value(statistic: Option<Fraction>) -> f64 {
    match statistic {
        Some(fraction) => fraction.numerator as f64 / fraction.denominator as f64,
        None => f64::NAN,
    }
}

fn twelfths(numerator: i128) -> Option<Fraction> {
    Some(Fraction { numerator, denominator: 12 })
}

fn close(a: f64, b: f64) -> bool {
    (a - b).abs() <= 1e-9 * (1.0 + a.abs().max(b.abs()))
}

#[test]
fn test_from_vec() {
    let v = vec![1, 2, 3, 4];
    let stats = Stats::from_vec(&v);
    assert_eq!(value(stats.min), 1.0);
    assert!((value(stats.q1) - 1.416666666666666).abs() < 1e-15);
    assert_eq!(value(stats.median), 2.5);
    assert!((value(stats.q3) - 3.583333333333333).abs() < 1e-15);
    assert_eq!(value(stats.max), 4.0);
    assert_eq!(stats.count, 4);
}

#[test]
fn from_vec_gives_exact_twelfths() {
    let stats = Stats::from_vec(&vec![4, 1, 3, 2]);
    assert_eq!(stats.min, twelfths(12));
    assert_eq!(stats.q1, twelfths(17));
    assert_eq!(stats.median, twelfths(30));
    assert_eq!(stats.q3, twelfths(43));
    assert_eq!(stats.max, twelfths(48));
    assert_eq!(stats.count, 4);
}

#[test]
fn from_vec_of_nothing_is_undefined() {
    let stats = Stats::from_vec(&Vec::new());
    assert_eq!(stats, Stats::nan());
    assert_eq!(stats.count, 0);
    assert!(stats.min.is_none());
    assert!(stats.q1.is_none());
    assert!(stats.median.is_none());
    assert!(stats.q3.is_none());
    assert!(stats.max.is_none());
    assert!(value(stats.min).is_nan());
}

#[test]
fn from_vec_of_one_value() {
    let stats = Stats::from_vec(&vec![-7]);
    assert_eq!(stats.min, twelfths(-84));
    assert_eq!(stats.q1, twelfths(-84));
    assert_eq!(stats.median, twelfths(-84));
    assert_eq!(stats.q3, twelfths(-84));
    assert_eq!(stats.max, twelfths(-84));
    assert_eq!(stats.count, 1);
}

#[test]
fn from_vec_of_two_values() {
    let stats = Stats::from_vec(&vec![10, 4]);
    assert_eq!(stats.min, twelfths(48));
    assert_eq!(stats.q1, twelfths(48));
    assert_eq!(stats.median, twelfths(84));
    assert_eq!(stats.q3, twelfths(120));
    assert_eq!(stats.max, twelfths(120));
}

#[test]
fn from_vec_of_extreme_values() {
    let stats = Stats::from_vec(&vec![i64::MAX, i64::MIN, 0, i64::MAX, i64::MIN]);
    assert_eq!(stats.min, twelfths(12 * i64::MIN as i128));
    assert_eq!(stats.max, twelfths(12 * i64::MAX as i128));
    assert_eq!(stats.median, twelfths(0));
    assert_eq!(stats.count, 5);
}

#[test]
fn uniform_repeats_its_value() {
    let third = Fraction { numerator: 1, denominator: 3 };
    let stats = Stats::uniform(third, 3);
    assert_eq!(stats.min, Some(third));
    assert_eq!(stats.q1, Some(third));
    assert_eq!(stats.median, Some(third));
    assert_eq!(stats.q3, Some(third));
    assert_eq!(stats.max, Some(third));
    assert_eq!(stats.count, 3);
    assert_eq!(Stats::uniform(third, 0), Stats::nan());
}

#[test]
fn statistics_are_in_order() {
    let mut seed: u64 = 0x2545F4914F6CDD1D;
    for length in 1..60usize {
        let mut data: Vec<i64> = Vec::new();
        for _ in 0..length {
            seed = seed.wrapping_mul(6364136223846793005).wrapping_add(1442695040888963407);
            data.push(((seed >> 33) % 2001) as i64 - 1000);
        }
        let stats = Stats::from_vec(&data);
        let numerators: Vec<i128> = vec![
            stats.min.unwrap().numerator,
            stats.q1.unwrap().numerator,
            stats.median.unwrap().numerator,
            stats.q3.unwrap().numerator,
            stats.max.unwrap().numerator,
        ];
        for pair in numerators.windows(2) {
            assert!(pair[0] <= pair[1]);
        }
        assert_eq!(stats.count, length);
    }
}

#[test]
fn statistics_agree_with_statrs() {
    let mut seed: u64 = 88172645463325252;
    for length in 1..80usize {
        let mut data: Vec<i64> = Vec::new();
        for _ in 0..length {
            seed = seed.wrapping_mul(6364136223846793005).wrapping_add(1442695040888963407);
            data.push(((seed >> 33) % 5_000_000) as i64 - 1_000_000);
        }
        let stats = Stats::from_vec(&data);
        let floats: Vec<f64> = data.iter().map(|v| *v as f64).collect();
        let mut reference = Data::new(floats);
        assert!(close(value(stats.min), reference.min()));
        assert!(close(value(stats.q1), reference.lower_quartile()));
        assert!(close(value(stats.median), Median::median(&reference)));
        assert!(close(value(stats.q3), reference.upper_quartile()));
        assert!(close(value(stats.max), reference.max()));
    }
}

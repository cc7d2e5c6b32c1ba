use chrono::TimeZone;
use chrono::Utc;
use uk_property_search_data::aggregator::PropertyAggregator;
use uk_property_search_data::property::Coordinates;
use uk_property_search_data::property_log::PropertyLogHistory;
use uk_property_search_data::property_log::PropertyLogRecord;
use uk_property_search_data::rightmove::RightmoveProperty;
use uk_property_search_data::stats::Fraction;
use uk_property_search_data::stats::Stats;

const DAY: i64 = 86_400_000;

fn value(statistic: Option<Fraction>) -> f64 {
    match statistic {
        Some(fraction) => fraction.numerator as f64 / fraction.denominator as f64,
        None => f64::NAN,
    }
}

fn values(stats: &Stats) -> (f64, f64, f64, f64, f64, usize) {
    (value(stats.min), value(stats.q1), value(stats.median), value(stats.q3), value(stats.max), stats.count)
}

fn coordinates(longitude: f64, latitude: f64) -> Coordinates {
    Coordinates { longitude: longitude.to_bits(), latitude: latitude.to_bits() }
}

fn advert(id: u32, price: i64, square_feet: Option<i32>, post_date: i64, transacted: bool) -> RightmoveProperty {
    RightmoveProperty {
        id,
        coordinates: coordinates(0.0, 51.5),
        price,
        square_feet,
        post_date,
        reduced_date: None,
        transacted,
    }
}

fn records(records: &[(i64, u32)]) -> Vec<PropertyLogRecord> {
    records.iter().map(|(date, price)| PropertyLogRecord { date: *date, price: *price }).collect()
}

#[test]
fn aggregator_test_get_stats() {
    let properties = vec![
        RightmoveProperty {
            id: 105233438,
            coordinates: coordinates(-0.122191, 51.53419),
            price: 3600000,
            square_feet: None,
            post_date: Utc.with_ymd_and_hms(2021, 4, 8, 19, 28, 38).unwrap().timestamp_millis(),
            reduced_date: None,
            transacted: false,
        },
        RightmoveProperty {
            id: 136850450,
            coordinates: coordinates(-0.125412, 51.529891),
            price: 3550000,
            square_feet: None,
            post_date: Utc.with_ymd_and_hms(2023, 7, 3, 0, 33, 55).unwrap().timestamp_millis(),
            reduced_date: None,
            transacted: false,
        },
        RightmoveProperty {
            id: 131749937,
            coordinates: coordinates(-0.125412, 51.529891),
            price: 1500000,
            square_feet: None,
            post_date: Utc.with_ymd_and_hms(2023, 2, 15, 21, 9, 3).unwrap().timestamp_millis(),
            reduced_date: None,
            transacted: false,
        },
    ];

    let stats = PropertyAggregator::calculate_stats(properties, Utc::now().timestamp_millis());

    assert_eq!(
        values(&stats.price),
        (1500000.0, 1841666.6666666667, 3550000.0, 3591666.6666666665, 3600000.0, 3)
    );
    assert_eq!(values(&stats.percent_transacted), (0.0, 0.0, 0.0, 0.0, 0.0, 3));
}

#[test]
fn no_adverts_have_no_statistics() {
    let stats = PropertyAggregator::calculate_stats(Vec::new(), 0);
    assert_eq!(stats.price, Stats::nan());
    assert_eq!(stats.listed_days, Stats::nan());
    assert_eq!(stats.percent_transacted, Stats::nan());
    assert_eq!(stats.square_feet, Stats::nan());
    assert_eq!(stats.price.count, 0);
    assert!(value(stats.price.min).is_nan());
}

#[test]
fn listed_days_are_whole_days_until_now() {
    let now = 100 * DAY;
    let stats = PropertyAggregator::calculate_stats(
        vec![
            advert(1, 1, None, now - 10 * DAY, false),
            advert(2, 1, None, now - 10 * DAY - 1, false),
            advert(3, 1, None, now - 11 * DAY + 1, false),
            advert(4, 1, None, now, false),
            advert(5, 1, None, now + 3 * DAY + 5, false),
        ],
        now,
    );
    assert_eq!(values(&stats.listed_days).0, -3.0);
    assert_eq!(values(&stats.listed_days).2, 10.0);
    assert_eq!(values(&stats.listed_days).4, 10.0);
    assert_eq!(stats.listed_days.count, 5);
    let edge = PropertyAggregator::calculate_stats(vec![advert(1, 1, None, i64::MIN, false)], i64::MAX);
    assert_eq!(edge.listed_days.max, Some(Fraction { numerator: 12 * 213503982334, denominator: 12 }));
}

#[test]
fn the_share_of_transacted_adverts_stands_for_each_advert() {
    let stats = PropertyAggregator::calculate_stats(
        vec![
            advert(1, 1, None, 0, true),
            advert(2, 1, None, 0, false),
            advert(3, 1, None, 0, false),
            advert(4, 1, None, 0, true),
        ],
        0,
    );
    let half = Some(Fraction { numerator: 2, denominator: 4 });
    assert_eq!(stats.percent_transacted.min, half);
    assert_eq!(stats.percent_transacted.q1, half);
    assert_eq!(stats.percent_transacted.median, half);
    assert_eq!(stats.percent_transacted.q3, half);
    assert_eq!(stats.percent_transacted.max, half);
    assert_eq!(stats.percent_transacted.count, 4);
    assert_eq!(values(&stats.percent_transacted), (0.5, 0.5, 0.5, 0.5, 0.5, 4));
}

#[test]
fn adverts_without_a_size_do_not_count_for_sizes() {
    let stats = PropertyAggregator::calculate_stats(
        vec![
            advert(1, 1, Some(900), 0, false),
            advert(2, 1, None, 0, false),
            advert(3, 1, Some(500), 0, false),
            advert(4, 1, None, 0, false),
        ],
        0,
    );
    assert_eq!(values(&stats.square_feet), (500.0, 500.0, 700.0, 900.0, 900.0, 2));
    assert_eq!(stats.price.count, 4);
}

#[test]
fn a_tenth_less_in_thirty_days_is_a_tenth_less_a_month() {
    let change = PropertyAggregator::price_change(&records(&[(0, 1000), (30 * DAY, 900)]));
    assert_eq!(change, Some(-100_000));
    assert_eq!(change.unwrap() as f64 / 1_000_000.0, -0.10);
}

#[test]
fn a_change_is_brought_to_a_month() {
    assert_eq!(PropertyAggregator::price_change(&records(&[(0, 1000), (60 * DAY, 900)])), Some(-50_000));
    assert_eq!(PropertyAggregator::price_change(&records(&[(0, 1000), (15 * DAY, 1100)])), Some(200_000));
    assert_eq!(PropertyAggregator::price_change(&records(&[(0, 3), (7 * DAY, 4)])), Some(1_428_571));
    assert_eq!(PropertyAggregator::price_change(&records(&[(0, 3), (7 * DAY, 2)])), Some(-1_428_571));
    assert_eq!(
        PropertyAggregator::price_change(&records(&[(0, 1), (DAY, u32::MAX)])),
        Some(4294967294i64 * 30_000_000)
    );
}

#[test]
fn the_last_two_records_by_date_count() {
    let given = records(&[(90 * DAY, 900), (0, 5000), (60 * DAY, 1000)]);
    assert_eq!(PropertyAggregator::price_change(&given), Some(-100_000));
}

#[test]
fn no_change_without_two_different_prices() {
    assert_eq!(PropertyAggregator::price_change(&records(&[])), Some(0));
    assert_eq!(PropertyAggregator::price_change(&records(&[(0, 1000)])), Some(0));
    assert_eq!(PropertyAggregator::price_change(&records(&[(0, 1000), (30 * DAY, 1000)])), Some(0));
    assert_eq!(PropertyAggregator::price_change(&records(&[(0, 0), (0, 0)])), Some(0));
}

#[test]
fn no_number_for_a_change_from_nothing_or_within_a_day() {
    assert_eq!(PropertyAggregator::price_change(&records(&[(0, 0), (30 * DAY, 900)])), None);
    assert_eq!(PropertyAggregator::price_change(&records(&[(0, 1000), (0, 900)])), None);
    assert_eq!(PropertyAggregator::price_change(&records(&[(0, 1000), (DAY - 1, 900)])), None);
}

#[test]
fn the_statistics_of_changes() {
    let histories = vec![
        PropertyLogHistory { id: 1, records: records(&[(0, 1000), (30 * DAY, 900)]) },
        PropertyLogHistory { id: 2, records: records(&[(0, 1000)]) },
        PropertyLogHistory { id: 3, records: records(&[(0, 0), (30 * DAY, 900)]) },
        PropertyLogHistory { id: 4, records: records(&[(0, 1000), (30 * DAY, 1200)]) },
    ];
    let stats = PropertyAggregator::calculate_price_change_stats(&histories);
    assert_eq!(stats.count, 3);
    assert_eq!(value(stats.min) / 1_000_000.0, -0.10);
    assert_eq!(value(stats.median) / 1_000_000.0, 0.0);
    assert_eq!(value(stats.max) / 1_000_000.0, 0.20);
    assert_eq!(PropertyAggregator::calculate_price_change_stats(&Vec::new()), Stats::nan());
}

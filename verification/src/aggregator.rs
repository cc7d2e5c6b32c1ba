//! From adverts and price histories to their statistics.

use crate::dates::days_between;
use crate::dates::whole_days;
use crate::order::stable_order;
use crate::property::PropertyStats;
use crate::property_log::PropertyLogHistory;
use crate::property_log::PropertyLogRecord;
use crate::property_log::by_date;
use crate::property_log::dates_of;
use crate::rightmove::RightmoveProperty;
use crate::stats::Fraction;
use crate::stats::Stats;
use vstd::prelude::*;

verus! {

/// The days of the month to which a change of price is brought.
pub const DAYS_PER_MONTH: i64 = 30;

/// The parts in which a change of price is counted: millionths of the
/// earlier price.
pub const MILLIONTHS: i64 = 1_000_000;

pub struct PropertyAggregator {}

/// The prices of adverts, in their order.
pub open spec fn prices_of(properties: Seq<RightmoveProperty>) -> Seq<i64> {
    Seq::new(properties.len(), |i: int| properties[i].price)
}

/// For how many whole days each advert has shown at the instant `now`.
pub open spec fn listed_days_of(properties: Seq<RightmoveProperty>, now: i64) -> Seq<i64> {
    Seq::new(properties.len(), |i: int| whole_days(properties[i].post_date as int, now as int) as i64)
}

/// The sizes of the adverts that have one, in their order.
pub open spec fn square_feet_in(properties: Seq<RightmoveProperty>) -> Seq<i64>
    decreases properties.len(),
{
    if properties.len() == 0 {
        Seq::empty()
    } else {
        match properties.last().square_feet {
            Some(size) => square_feet_in(properties.drop_last()).push(size as i64),
            None => square_feet_in(properties.drop_last()),
        }
    }
}

/// How many of the adverts are as good as let or sold.
pub open spec fn transacted_in(properties: Seq<RightmoveProperty>) -> nat
    decreases properties.len(),
{
    if properties.len() == 0 {
        0
    } else if properties.last().transacted {
        transacted_in(properties.drop_last()) + 1
    } else {
        transacted_in(properties.drop_last())
    }
}

/// `numerator / denominator` for a positive denominator, rounded towards
/// zero.
pub open spec fn truncated(numerator: int, denominator: int) -> int {
    if numerator >= 0 {
        numerator / denominator
    } else {
        -((-numerator) / denominator)
    }
}

/// By how much the price of a property last changed, in millionths of the
/// earlier price and brought to a month of 30 days: where the last two
/// records by date have the prices `a` and then `b` and lie `d` whole days
/// apart, it is `(b - a) / a * 30 / d`, rounded towards zero. A history of
/// fewer than two records, or whose last two prices are equal, has changed
/// by nothing. Where the prices differ and the earlier price is zero, or no
/// whole day lies between the two records, there is no such number.
pub open spec fn price_change_of(records: Seq<PropertyLogRecord>) -> Option<i64> {
    let sorted = by_date(records);
    let n = sorted.len() as int;
    if n < 2 || sorted[n - 2].price == sorted[n - 1].price {
        Some(0)
    } else {
        let earlier = sorted[n - 2];
        let later = sorted[n - 1];
        let days = whole_days(earlier.date as int, later.date as int);
        if earlier.price == 0 || days <= 0 {
            None
        } else {
            Some(
                truncated(
                    (later.price - earlier.price) * DAYS_PER_MONTH * MILLIONTHS,
                    earlier.price * days,
                ) as i64,
            )
        }
    }
}

/// The changes of price of the histories that have one, in their order.
pub open spec fn price_changes_in(histories: Seq<PropertyLogHistory>) -> Seq<i64>
    decreases histories.len(),
{
    if histories.len() == 0 {
        Seq::empty()
    } else {
        match price_change_of(histories.last().records@) {
            Some(change) => price_changes_in(histories.drop_last()).push(change),
            None => price_changes_in(histories.drop_last()),
        }
    }
}

impl PropertyAggregator {
    /// The statistics of adverts at the instant `now`: of their prices, of
    /// the whole days for which they have shown, of the share of them that is
    /// as good as let or sold, which stands for each of them alike, and of
    /// the sizes of those that have one.
    pub open spec fn stats_of(properties: Seq<RightmoveProperty>, now: i64) -> PropertyStats {
        PropertyStats {
            price: Stats::of(prices_of(properties)),
            listed_days: Stats::of(listed_days_of(properties, now)),
            percent_transacted: Stats::uniform_of(
                Fraction {
                    numerator: transacted_in(properties) as i128,
                    denominator: properties.len() as u128,
                },
                properties.len() as usize,
            ),
            square_feet: Stats::of(square_feet_in(properties)),
        }
    }

    /// The statistics of adverts at the instant `now`, in milliseconds since
    /// the epoch.
    pub fn calculate_stats(properties: Vec<RightmoveProperty>, now: i64) -> (stats: PropertyStats)
        ensures
            stats == PropertyAggregator::stats_of(properties@, now),
            properties.len() == 0 ==> stats.price == Stats::undefined() && stats.listed_days == Stats::undefined()
                && stats.percent_transacted == Stats::undefined() && stats.square_feet == Stats::undefined(),
    {
        let mut prices: Vec<i64> = Vec::new();
        let mut listed_days: Vec<i64> = Vec::new();
        let mut square_feet: Vec<i64> = Vec::new();
        let mut transacted: usize = 0;
        let mut i: usize = 0;
        while i < properties.len()
            invariant
                i <= properties.len(),
                prices@ == prices_of(properties@.take(i as int)),
                listed_days@ == listed_days_of(properties@.take(i as int), now),
                square_feet@ == square_feet_in(properties@.take(i as int)),
                transacted == transacted_in(properties@.take(i as int)),
                transacted <= i,
            decreases properties.len() - i,
        {
            let property = &properties[i];
            assert(properties@.take(i + 1).drop_last() =~= properties@.take(i as int));
            prices.push(property.price);
            listed_days.push(days_between(property.post_date, now));
            match property.square_feet {
                Some(size) => {
                    square_feet.push(size as i64);
                },
                None => {},
            }
            if property.transacted {
                transacted = transacted + 1;
            }
            assert(prices@ =~= prices_of(properties@.take(i + 1)));
            assert(listed_days@ =~= listed_days_of(properties@.take(i + 1), now));
            i += 1;
        }
        assert(properties@.take(i as int) =~= properties@);
        PropertyStats {
            price: Stats::from_vec(&prices),
            listed_days: Stats::from_vec(&listed_days),
            percent_transacted: Stats::uniform(
                Fraction { numerator: transacted as i128, denominator: properties.len() as u128 },
                properties.len(),
            ),
            square_feet: Stats::from_vec(&square_feet),
        }
    }

    /// By how much the price of a property last changed, in millionths of
    /// the earlier price and brought to a month of 30 days.
    pub fn price_change(records: &Vec<PropertyLogRecord>) -> (change: Option<i64>)
        ensures
            change == price_change_of(records@),
    {
        let n = records.len();
        if n < 2 {
            return Some(0);
        }
        let mut dates: Vec<i64> = Vec::new();
        let mut k: usize = 0;
        while k < n
            invariant
                k <= n == records.len(),
                dates@ == dates_of(records@.take(k as int)),
            decreases n - k,
        {
            dates.push(records[k].date);
            assert(dates@ =~= dates_of(records@.take(k + 1)));
            k += 1;
        }
        assert(records@.take(k as int) =~= records@);
        let order = stable_order(&dates);
        let earlier = records[order[n - 2]];
        let later = records[order[n - 1]];
        if earlier.price == later.price {
            return Some(0);
        }
        let days = days_between(earlier.date, later.date);
        if earlier.price == 0 || days <= 0 {
            return None;
        }
        let difference: i128 = later.price as i128 - earlier.price as i128;
        let numerator: i128 = difference * 30_000_000;
        assert(numerator == (later.price - earlier.price) * DAYS_PER_MONTH * MILLIONTHS);
        assert(1 <= earlier.price * days <= 0xffff_ffff * 0x7fff_ffff_ffff_ffff) by (nonlinear_arith)
            requires
                1 <= earlier.price <= 0xffff_ffff,
                1 <= days <= 0x7fff_ffff_ffff_ffff,
        ;
        let denominator: i128 = (earlier.price as i128) * (days as i128);
        proof {
            let wide = if numerator >= 0 {
                numerator as int
            } else {
                -numerator as int
            };
            assert(0 <= wide / (denominator as int) <= wide) by (nonlinear_arith)
                requires
                    wide >= 0,
                    denominator >= 1,
            ;
        }
        let quotient = numerator / denominator;
        assert(quotient == truncated(numerator as int, denominator as int));
        Some(quotient as i64)
    }

    /// The statistics of the changes of price of the histories that have
    /// one.
    pub fn calculate_price_change_stats(histories: &Vec<PropertyLogHistory>) -> (stats: Stats)
        ensures
            stats == Stats::of(price_changes_in(histories@)),
    {
        let mut changes: Vec<i64> = Vec::new();
        let mut i: usize = 0;
        while i < histories.len()
            invariant
                i <= histories.len(),
                changes@ == price_changes_in(histories@.take(i as int)),
            decreases histories.len() - i,
        {
            assert(histories@.take(i + 1).drop_last() =~= histories@.take(i as int));
            match PropertyAggregator::price_change(&histories[i].records) {
                Some(change) => {
                    changes.push(change);
                },
                None => {},
            }
            i += 1;
        }
        assert(histories@.take(i as int) =~= histories@);
        Stats::from_vec(&changes)
    }
}

} // verus!

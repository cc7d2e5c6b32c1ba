//! Five-number summaries (minimum, quartiles, maximum) in exact arithmetic.
//!
//! The quartiles interpolate linearly between order statistics at the rank
//! `h = (n + 1/3) * tau + 1/3`, the median-unbiased estimate (type 8 of
//! Hyndman and Fan). For `tau` of one and three quarters `12 * h` is a whole
//! number that twelve never divides, so every statistic of whole numbers is a
//! whole number of twelfths.

use crate::order::before;
use crate::order::is_stable_order;
use crate::order::lemma_stable_order_exists;
use crate::order::lists;
use crate::order::stable_order;
use crate::order::stable_order_of;
use vstd::prelude::*;

verus! {

/// The rational number `numerator / denominator`. A fraction with denominator
/// zero stands for no number.
#[derive(Clone, Copy, Debug, PartialEq, Eq, Structural)]
pub struct Fraction {
    pub numerator: i128,
    pub denominator: u128,
}

impl Fraction {
    /// `self <= other`, as rational numbers with positive denominators.
    pub open spec fn le(self, other: Fraction) -> bool {
        self.numerator * other.denominator <= other.numerator * self.denominator
    }

    /// `self` and `other` are the same rational number.
    pub open spec fn same(self, other: Fraction) -> bool {
        self.numerator * other.denominator == other.numerator * self.denominator
    }
}

/// `numerator / 12`.
pub open spec fn twelfths(numerator: int) -> Fraction {
    Fraction { numerator: numerator as i128, denominator: 12 }
}

/// Minimum, lower quartile, median, upper quartile and maximum of `count`
/// values; all five are `None` when there is no value.
#[derive(Clone, Copy, Debug, PartialEq, Eq, Structural)]
pub struct Stats {
    pub min: Option<Fraction>,
    pub q1: Option<Fraction>,
    pub median: Option<Fraction>,
    pub q3: Option<Fraction>,
    pub max: Option<Fraction>,
    pub count: usize,
}

/// `data` in ascending order.
pub open spec fn ascending(data: Seq<i64>) -> Seq<i64> {
    Seq::new(data.len(), |i: int| data[stable_order_of(data)[i] as int])
}

/// Twelve times the rank `h` of the quartile `quarter / 4` among `n` values.
pub open spec fn rank_twelfths(n: int, quarter: int) -> int {
    (3 * n + 1) * quarter + 4
}

/// Twelve times the quartile `quarter / 4` of the ascending values `sorted`:
/// the minimum below rank one, the maximum from rank `n` on, and between the
/// values at ranks `floor(h)` and `floor(h) + 1` in proportion to the
/// fractional part of `h`.
pub open spec fn quartile_twelfths(sorted: Seq<i64>, quarter: int) -> int {
    let n = sorted.len() as int;
    let h = rank_twelfths(n, quarter);
    let floor = h / 12;
    if floor <= 0 {
        12 * sorted[0]
    } else if floor >= n {
        12 * sorted[n - 1]
    } else {
        12 * sorted[floor - 1] + (h % 12) * (sorted[floor] - sorted[floor - 1])
    }
}

/// Twelve times the median of the ascending values `sorted`: the middle
/// value, or the mean of the two middle values.
pub open spec fn median_twelfths(sorted: Seq<i64>) -> int {
    let n = sorted.len() as int;
    if n % 2 == 1 {
        12 * sorted[n / 2]
    } else {
        6 * (sorted[n / 2 - 1] + sorted[n / 2])
    }
}

impl Stats {
    /// The summary of no values.
    pub open spec fn undefined() -> Stats {
        Stats { min: None, q1: None, median: None, q3: None, max: None, count: 0 }
    }

    /// The summary of `data`.
    pub open spec fn of(data: Seq<i64>) -> Stats {
        if data.len() == 0 {
            Stats::undefined()
        } else {
            let sorted = ascending(data);
            Stats {
                min: Some(twelfths(12 * sorted[0])),
                q1: Some(twelfths(quartile_twelfths(sorted, 1))),
                median: Some(twelfths(median_twelfths(sorted))),
                q3: Some(twelfths(quartile_twelfths(sorted, 3))),
                max: Some(twelfths(12 * sorted[data.len() - 1])),
                count: data.len() as usize,
            }
        }
    }

    /// The summary of `count` values that all equal `value`.
    pub open spec fn uniform_of(value: Fraction, count: usize) -> Stats {
        if count == 0 {
            Stats::undefined()
        } else {
            Stats {
                min: Some(value),
                q1: Some(value),
                median: Some(value),
                q3: Some(value),
                max: Some(value),
                count,
            }
        }
    }

    /// All five statistics are numbers, in the order
    /// `min <= q1 <= median <= q3 <= max`.
    pub open spec fn ordered(self) -> bool {
        &&& self.min matches Some(min)
        &&& self.q1 matches Some(q1)
        &&& self.median matches Some(median)
        &&& self.q3 matches Some(q3)
        &&& self.max matches Some(max)
        &&& min.denominator > 0 && q1.denominator > 0 && median.denominator > 0 && q3.denominator > 0
            && max.denominator > 0
        &&& min.le(q1)
        &&& q1.le(median)
        &&& median.le(q3)
        &&& q3.le(max)
    }

    /// The summary of no values: no statistic is a number, and the count is 0.
    pub fn nan() -> (stats: Stats)
        ensures
            stats == Stats::undefined(),
    {
        Stats { min: None, q1: None, median: None, q3: None, max: None, count: 0 }
    }

    /// The summary of `count` values that all equal `value`.
    pub fn uniform(value: Fraction, count: usize) -> (stats: Stats)
        ensures
            stats == Stats::uniform_of(value, count),
    {
        if count == 0 {
            Stats::nan()
        } else {
            Stats {
                min: Some(value),
                q1: Some(value),
                median: Some(value),
                q3: Some(value),
                max: Some(value),
                count,
            }
        }
    }

    /// The summary of the values in `vec`.
    pub fn from_vec(vec: &Vec<i64>) -> (stats: Stats)
        ensures
            stats == Stats::of(vec@),
            stats.count == vec.len(),
            vec.len() > 0 ==> stats.ordered(),
    {
        let n = vec.len();
        if n == 0 {
            return Stats::nan();
        }
        let order = stable_order(vec);
        let ghost sorted = ascending(vec@);
        assert forall|i: int| 0 <= i < n implies sorted[i] == vec[order[i] as int] by {}
        let q1 = quartile(vec, &order, 1);
        let q3 = quartile(vec, &order, 3);
        let lower = vec[order[(n - 1) / 2]] as i128;
        let upper = vec[order[n / 2]] as i128;
        let median = 6 * (lower + upper);
        let min = 12 * (vec[order[0]] as i128);
        let max = 12 * (vec[order[n - 1]] as i128);
        proof {
            lemma_summary_ordered(vec@);
        }
        Stats {
            min: Some(Fraction { numerator: min, denominator: 12 }),
            q1: Some(Fraction { numerator: q1, denominator: 12 }),
            median: Some(Fraction { numerator: median, denominator: 12 }),
            q3: Some(Fraction { numerator: q3, denominator: 12 }),
            max: Some(Fraction { numerator: max, denominator: 12 }),
            count: n,
        }
    }
}

/// Twelve times the quartile `quarter / 4` of `vec`, read through its stable
/// order.
fn quartile(vec: &Vec<i64>, order: &Vec<usize>, quarter: u8) -> (q: i128)
    requires
        vec.len() > 0,
        order@ == stable_order_of(vec@),
        is_stable_order(vec@, order@),
        quarter == 1 || quarter == 3,
    ensures
        q == quartile_twelfths(ascending(vec@), quarter as int),
{
    let n = vec.len();
    let base: u128 = 3 * (n as u128) + 1;
    let h: u128 = if quarter == 1 {
        base + 4
    } else {
        3 * base + 4
    };
    let floor = h / 12;
    let part = (h % 12) as i128;
    if floor == 0 {
        12 * (vec[order[0]] as i128)
    } else if floor >= n as u128 {
        12 * (vec[order[n - 1]] as i128)
    } else {
        let at = floor as usize;
        let a = vec[order[at - 1]] as i128;
        let b = vec[order[at]] as i128;
        assert(-0x1_0000_0000_0000_0000 <= b - a <= 0x1_0000_0000_0000_0000);
        assert(-11 * 0x1_0000_0000_0000_0000 <= part * (b - a) <= 11 * 0x1_0000_0000_0000_0000)
            by (nonlinear_arith)
            requires
                0 <= part <= 11,
                -0x1_0000_0000_0000_0000 <= b - a <= 0x1_0000_0000_0000_0000,
        ;
        12 * a + part * (b - a)
    }
}

/// The values of `data` in ascending order do ascend, and each is one of
/// `data`.
pub proof fn lemma_ascending(data: Seq<i64>)
    requires
        data.len() <= usize::MAX,
    ensures
        ascending(data).len() == data.len(),
        forall|i: int, j: int|
            0 <= i <= j < data.len() ==> #[trigger] ascending(data)[i] <= #[trigger] ascending(data)[j],
        forall|k: int|
            0 <= k < data.len() ==> ascending(data)[0] <= #[trigger] data[k] <= ascending(data)[data.len() - 1],
{
    lemma_stable_order_exists(data);
    let order = stable_order_of(data);
    let sorted = ascending(data);
    assert forall|i: int, j: int| 0 <= i <= j < data.len() implies #[trigger] sorted[i] <= #[trigger] sorted[j] by {
        if i < j {
            assert(before(data, order[i] as int, order[j] as int));
        }
    }
    assert forall|k: int| 0 <= k < data.len() implies sorted[0] <= #[trigger] data[k] <= sorted[data.len() - 1] by {
        assert(lists(order, k));
        let i = choose|i: int| 0 <= i < order.len() && order[i] == k;
        assert(sorted[i] == data[k]);
        assert(sorted[0] <= sorted[i]);
        assert(sorted[i] <= sorted[data.len() - 1]);
    }
}

/// A quartile lies between the values at the two ranks around `h`.
proof fn lemma_quartile_bounds(sorted: Seq<i64>, quarter: int)
    requires
        sorted.len() > 0,
        quarter == 1 || quarter == 3,
        forall|i: int, j: int| 0 <= i <= j < sorted.len() ==> #[trigger] sorted[i] <= #[trigger] sorted[j],
    ensures
        ({
            let n = sorted.len() as int;
            let floor = rank_twelfths(n, quarter) / 12;
            let q = quartile_twelfths(sorted, quarter);
            &&& 12 * sorted[0] <= q <= 12 * sorted[n - 1]
            &&& 0 < floor < n ==> 12 * sorted[floor - 1] <= q <= 12 * sorted[floor]
        }),
{
    let n = sorted.len() as int;
    let h = rank_twelfths(n, quarter);
    let floor = h / 12;
    if 0 < floor < n {
        let a = sorted[floor - 1] as int;
        let b = sorted[floor] as int;
        let part = h % 12;
        assert(sorted[floor - 1] <= sorted[floor]);
        assert(0 <= part * (b - a) <= 12 * (b - a)) by (nonlinear_arith)
            requires
                0 <= part <= 12,
                a <= b,
        ;
        assert(sorted[0] <= sorted[floor - 1]);
        assert(sorted[floor] <= sorted[n - 1]);
    } else {
        assert(sorted[0] <= sorted[n - 1]);
    }
}

/// The five statistics of one or more values are in order:
/// `min <= q1 <= median <= q3 <= max`.
pub proof fn lemma_summary_ordered(data: Seq<i64>)
    requires
        0 < data.len() <= usize::MAX,
    ensures
        Stats::of(data).ordered(),
{
    lemma_ascending(data);
    let sorted = ascending(data);
    let n = sorted.len() as int;
    lemma_quartile_bounds(sorted, 1);
    lemma_quartile_bounds(sorted, 3);
    let low = rank_twelfths(n, 1) / 12;
    let high = rank_twelfths(n, 3) / 12;
    let q1 = quartile_twelfths(sorted, 1);
    let q3 = quartile_twelfths(sorted, 3);
    let median = median_twelfths(sorted);
    // the median lies between the two middle values
    assert(sorted[(n - 1) / 2] <= sorted[n / 2]);
    assert(12 * sorted[(n - 1) / 2] <= median <= 12 * sorted[n / 2]);
    // the lower quartile ends at or before the lower middle value
    assert(q1 <= median) by {
        if 0 < low < n {
            assert(low <= (n - 1) / 2);
            assert(sorted[low] <= sorted[(n - 1) / 2]);
        } else {
            assert(low <= 0);
            assert(sorted[0] <= sorted[(n - 1) / 2]);
        }
    }
    // the upper quartile starts at or after the upper middle value
    assert(median <= q3) by {
        if 0 < high < n {
            assert(n / 2 <= high - 1);
            assert(sorted[n / 2] <= sorted[high - 1]);
        } else {
            assert(high >= n);
            assert(sorted[n / 2] <= sorted[n - 1]);
        }
    }
    lemma_twelfths_fit(sorted, 1);
    lemma_twelfths_fit(sorted, 3);
}

/// Twelve times a statistic of 64-bit values fits in 128 bits.
proof fn lemma_twelfths_fit(sorted: Seq<i64>, quarter: int)
    requires
        sorted.len() > 0,
        quarter == 1 || quarter == 3,
        forall|i: int, j: int| 0 <= i <= j < sorted.len() ==> #[trigger] sorted[i] <= #[trigger] sorted[j],
    ensures
        i128::MIN <= quartile_twelfths(sorted, quarter) <= i128::MAX,
        i128::MIN <= median_twelfths(sorted) <= i128::MAX,
{
    lemma_quartile_bounds(sorted, quarter);
}

/// The summary of no values has count 0 and no statistic.
pub proof fn lemma_summary_of_nothing(data: Seq<i64>)
    requires
        data.len() == 0,
    ensures
        Stats::of(data) == Stats::undefined(),
        Stats::of(data).count == 0,
        Stats::of(data).min is None,
        Stats::of(data).q1 is None,
        Stats::of(data).median is None,
        Stats::of(data).q3 is None,
        Stats::of(data).max is None,
{
}

/// Values that are all the same number have that number for each of the
/// five statistics.
pub proof fn lemma_summary_of_equal_values(data: Seq<i64>, value: i64)
    requires
        0 < data.len() <= usize::MAX,
        forall|i: int| 0 <= i < data.len() ==> #[trigger] data[i] == value,
    ensures
        Stats::of(data) == Stats::uniform_of(twelfths(12 * value), data.len() as usize),
{
    lemma_stable_order_exists(data);
    let sorted = ascending(data);
    assert forall|i: int| 0 <= i < sorted.len() implies #[trigger] sorted[i] == value by {
        assert(data[stable_order_of(data)[i] as int] == value);
    }
    let n = sorted.len() as int;
    assert(sorted[0] == value && sorted[n - 1] == value);
    assert(sorted[n / 2] == value);
    if n % 2 == 0 {
        assert(sorted[n / 2 - 1] == value);
    }
    let low = rank_twelfths(n, 1) / 12;
    if 0 < low < n {
        assert(sorted[low] == value && sorted[low - 1] == value);
    }
    let high = rank_twelfths(n, 3) / 12;
    if 0 < high < n {
        assert(sorted[high] == value && sorted[high - 1] == value);
    }
    assert(quartile_twelfths(sorted, 1) == 12 * value);
    assert(quartile_twelfths(sorted, 3) == 12 * value);
    assert(median_twelfths(sorted) == 12 * value);
}

/// The minimum and the maximum of a summary bound every value.
pub proof fn lemma_summary_bounds(data: Seq<i64>, k: int)
    requires
        0 <= k < data.len() <= usize::MAX,
    ensures
        Stats::of(data).min->0.le(twelfths(12 * data[k])),
        twelfths(12 * data[k]).le(Stats::of(data).max->0),
{
    lemma_ascending(data);
    let sorted = ascending(data);
    assert(sorted[0] <= data[k] <= sorted[data.len() - 1]);
    assert(Stats::of(data).min == Some(twelfths(12 * sorted[0])));
    assert(twelfths(12 * sorted[0]).numerator == 12 * sorted[0]);
    assert(twelfths(12 * data[k]).numerator == 12 * data[k]);
    assert(Stats::of(data).max == Some(twelfths(12 * sorted[data.len() - 1])));
    assert(twelfths(12 * sorted[data.len() - 1]).numerator == 12 * sorted[data.len() - 1]);
}

} // verus!

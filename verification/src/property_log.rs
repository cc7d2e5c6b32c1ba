//! The price history service: what is asked of it, and what is made of its
//! answers.

use crate::dates::calendar_date_millis;
use crate::dates::parse_calendar_date;
use crate::http::HttpOptions;
use crate::http::pair;
use crate::http::pairs_of;
use crate::order::before;
use crate::order::is_stable_order;
use crate::order::stable_order;
use crate::order::stable_order_of;
use crate::pattern::capture;
use crate::pattern::captured;
use crate::retry::Backoff;
use crate::retry::RetryPolicy;
use crate::text::chars_of;
use crate::text::decimal;
use crate::text::parse_digits;
use crate::text::strip_commas;
use crate::text::text_of;
use crate::text::to_decimal;
use crate::text::unsigned_decimal;
use crate::text::without_commas;
use vstd::prelude::*;

verus! {

/// Where the histories are asked for.
pub const HISTORY_URL: &'static str = "https://api.propertylog.net/api/properties";

/// The referer that the service expects.
pub const HISTORY_REFERER: &'static str = "https://www.rightmove.co.uk/";

/// A price is the first run of digits in a text, with or without commas
/// between groups of them.
pub const PRICE_PATTERN: &'static str = "(([0-9]+),)*[0-9]+";

/// Dates come as day, month and year.
pub const DATE_FORMAT: &'static str = "%d/%m/%Y";

/// One price of a property, as the service gives it.
#[derive(Debug)]
pub struct Price {
    /// Day, month and year, as in `25/10/2022`.
    pub date: String,
    pub price: String,
}

/// The prices of one property, as the service gives them.
#[derive(Debug)]
pub struct Property {
    pub id: u32,
    pub prices: Vec<Price>,
}

#[derive(Debug)]
pub struct PropertyLogHistory {
    pub id: u32,
    pub records: Vec<PropertyLogRecord>,
}

#[derive(Clone, Copy, Debug, PartialEq, Eq, Structural)]
pub struct PropertyLogRecord {
    /// Midnight UTC of the day, in milliseconds since the epoch.
    pub date: i64,
    pub price: u32,
}

#[derive(Debug)]
pub struct PropertyLog {
    pub options: HttpOptions,
    pub user: String,
    pub max_retry_count: u32,
    pub retry_delay_seconds: u64,
}

/// The price in what was found of one in a text: its digits, read without
/// the commas, if they make a number of 32 bits.
pub open spec fn price_of(found: Option<Seq<char>>) -> Option<u32> {
    match found {
        Some(digits) => match unsigned_decimal(without_commas(digits)) {
            Some(v) => if v <= u32::MAX {
                Some(v as u32)
            } else {
                None
            },
            None => None,
        },
        None => None,
    }
}

/// The record of a date and a price that can both be read.
pub open spec fn record_from_parts(date: Option<int>, price: Option<u32>) -> Option<PropertyLogRecord> {
    match (date, price) {
        (Some(millis), Some(pounds)) => Some(PropertyLogRecord { date: millis as i64, price: pounds }),
        _ => None,
    }
}

/// The record that a price of the service stands for, if it stands for one.
pub open spec fn record_of(price: Price) -> Option<PropertyLogRecord> {
    record_from_parts(
        calendar_date_millis(price.date@, DATE_FORMAT@),
        price_of(captured(PRICE_PATTERN@, price.price@, 0)),
    )
}

/// The records that prices stand for, in the order of the prices; a price
/// that stands for none is left out.
pub open spec fn records_of(prices: Seq<Price>) -> Seq<PropertyLogRecord>
    decreases prices.len(),
{
    if prices.len() == 0 {
        Seq::empty()
    } else {
        match record_of(prices.last()) {
            Some(record) => records_of(prices.drop_last()).push(record),
            None => records_of(prices.drop_last()),
        }
    }
}

/// The dates of records, in their order.
pub open spec fn dates_of(records: Seq<PropertyLogRecord>) -> Seq<i64> {
    Seq::new(records.len(), |i: int| records[i].date)
}

/// Records by ascending date; records of one date stay in their order.
pub open spec fn by_date(records: Seq<PropertyLogRecord>) -> Seq<PropertyLogRecord> {
    Seq::new(records.len(), |i: int| records[stable_order_of(dates_of(records))[i] as int])
}

/// The name under which the form gives the field `field` of its `index`th
/// property.
pub open spec fn field_name(index: nat, field: Seq<char>) -> Seq<char> {
    "properties["@ + decimal(index) + "]["@ + field + "]"@
}

/// The form that asks for the histories of `ids`: for each property its
/// identifier and an empty price, and at the end the user.
pub open spec fn form_of(ids: Seq<u32>, user: Seq<char>) -> Seq<(Seq<char>, Seq<char>)> {
    Seq::new(
        2 * ids.len() + 1,
        |j: int|
            if j == 2 * ids.len() {
                ("user"@, user)
            } else if j % 2 == 0 {
                (field_name((j / 2) as nat, "id"@), decimal(ids[j / 2] as nat))
            } else {
                (field_name((j / 2) as nat, "price"@), Seq::<char>::empty())
            },
    )
}

/// The price in what was found of one in a text.
pub fn price_from_match(found: &Option<String>) -> (price: Option<u32>)
    ensures
        price == price_of(text_of(*found)),
{
    match found {
        Some(digits) => {
            let plain = strip_commas(&chars_of(digits.as_str()));
            assert(plain@.skip(0) =~= plain@);
            match parse_digits(&plain, 0, 0xffff_ffff) {
                Some(v) => Some(v as u32),
                None => None,
            }
        },
        None => None,
    }
}

/// The record of a date and a price, if both were read.
pub fn record_from(date: Option<i64>, price: Option<u32>) -> (record: Option<PropertyLogRecord>)
    ensures
        record == match (date, price) {
            (Some(millis), Some(pounds)) => Some(PropertyLogRecord { date: millis, price: pounds }),
            _ => None,
        },
{
    match (date, price) {
        (Some(millis), Some(pounds)) => Some(PropertyLogRecord { date: millis, price: pounds }),
        _ => None,
    }
}

/// The record that a price of the service stands for: `None` where its date
/// or its price cannot be read.
pub fn parse_record(price: &Price) -> (record: Option<PropertyLogRecord>)
    ensures
        record == record_of(*price),
{
    let date = parse_calendar_date(price.date.as_str(), DATE_FORMAT);
    let found = capture(PRICE_PATTERN, price.price.as_str(), 0);
    record_from(date, price_from_match(&found))
}

/// Records by ascending date; records of one date stay in their order.
pub fn sort_by_date(records: &Vec<PropertyLogRecord>) -> (sorted: Vec<PropertyLogRecord>)
    ensures
        sorted@ == by_date(records@),
        sorted.len() == records.len(),
        forall|i: int, j: int| 0 <= i <= j < sorted.len() ==> (#[trigger] sorted[i]).date <= (#[trigger] sorted[j]).date,
{
    let mut dates: Vec<i64> = Vec::new();
    let mut k: usize = 0;
    while k < records.len()
        invariant
            k <= records.len(),
            dates@ == dates_of(records@.take(k as int)),
        decreases records.len() - k,
    {
        dates.push(records[k].date);
        assert(dates@ =~= dates_of(records@.take(k + 1)));
        k += 1;
    }
    assert(records@.take(k as int) =~= records@);
    let order = stable_order(&dates);
    let mut sorted: Vec<PropertyLogRecord> = Vec::new();
    let mut i: usize = 0;
    while i < order.len()
        invariant
            i <= order.len(),
            order@ == stable_order_of(dates_of(records@)),
            is_stable_order(dates_of(records@), order@),
            sorted@ == by_date(records@).take(i as int),
        decreases order.len() - i,
    {
        sorted.push(records[order[i]]);
        assert(sorted@ =~= by_date(records@).take(i + 1));
        i += 1;
    }
    assert(by_date(records@).take(i as int) =~= by_date(records@));
    assert forall|i: int, j: int| 0 <= i <= j < sorted.len() implies (#[trigger] sorted[i]).date <= (
    #[trigger] sorted[j]).date by {
        if i < j {
            assert(before(dates_of(records@), order[i] as int, order[j] as int));
        }
    }
    sorted
}

/// The history of one property: the records that its prices stand for, by
/// ascending date.
pub fn history(property: &Property) -> (history: PropertyLogHistory)
    ensures
        history.id == property.id,
        history.records@ == by_date(records_of(property.prices@)),
        forall|i: int, j: int|
            0 <= i <= j < history.records.len() ==> (#[trigger] history.records[i]).date <= (
            #[trigger] history.records[j]).date,
{
    let mut records: Vec<PropertyLogRecord> = Vec::new();
    let mut i: usize = 0;
    while i < property.prices.len()
        invariant
            i <= property.prices.len(),
            records@ == records_of(property.prices@.take(i as int)),
        decreases property.prices.len() - i,
    {
        assert(property.prices@.take(i + 1).drop_last() =~= property.prices@.take(i as int));
        match parse_record(&property.prices[i]) {
            Some(record) => {
                records.push(record);
            },
            None => {},
        }
        i += 1;
    }
    assert(property.prices@.take(i as int) =~= property.prices@);
    PropertyLogHistory { id: property.id, records: sort_by_date(&records) }
}

impl PropertyLog {
    /// The price history service for `user`, with its own bound on open
    /// connections and the referer that the service expects.
    pub fn new(max_parallel_connections: usize, user: String, max_retry_count: u32, retry_delay_seconds: u64) -> (log:
        PropertyLog)
        ensures
            log.options.max_parallel_connections == Some(max_parallel_connections),
            log.options.max_retry_count is None,
            log.options.referer matches Some(referer) && referer@ == HISTORY_REFERER@,
            log.user == user,
            log.max_retry_count == max_retry_count,
            log.retry_delay_seconds == retry_delay_seconds,
    {
        PropertyLog {
            options: HttpOptions {
                max_parallel_connections: Some(max_parallel_connections),
                max_retry_count: None,
                referer: Some(HISTORY_REFERER.to_owned()),
            },
            user,
            max_retry_count,
            retry_delay_seconds,
        }
    }

    /// How a failed lookup is tried again: the whole of it, as often as was
    /// set, each time after the same pause.
    pub fn retry_policy(&self) -> (policy: RetryPolicy)
        ensures
            policy.max_retries == self.max_retry_count,
            policy.backoff == Backoff::Fixed,
            policy.base_delay_millis == if self.retry_delay_seconds * 1000 <= u64::MAX {
                (self.retry_delay_seconds * 1000) as u64
            } else {
                u64::MAX
            },
    {
        let base_delay_millis = if self.retry_delay_seconds > u64::MAX / 1000 {
            u64::MAX
        } else {
            self.retry_delay_seconds * 1000
        };
        RetryPolicy { max_retries: self.max_retry_count, base_delay_millis, backoff: Backoff::Fixed }
    }

    /// The form that asks for the histories of `ids`, or `None` where there
    /// is nothing to ask for.
    pub fn history_form(&self, ids: &Vec<u32>) -> (form: Option<Vec<(String, String)>>)
        ensures
            ids.len() == 0 <==> form is None,
            form matches Some(fields) ==> pairs_of(fields@) == form_of(ids@, self.user@),
    {
        if ids.len() == 0 {
            return None;
        }
        let mut fields: Vec<(String, String)> = Vec::new();
        let mut i: usize = 0;
        while i < ids.len()
            invariant
                i <= ids.len(),
                fields.len() == 2 * i,
                forall|j: int| 0 <= j < 2 * i ==> (#[trigger] pairs_of(fields@)[j]) == form_of(ids@, self.user@)[j],
            decreases ids.len() - i,
        {
            let index = to_decimal(i as u64);
            let id_name = "properties[".to_owned().concat(index.as_str()).concat("][").concat("id").concat("]");
            let price_name = "properties[".to_owned().concat(index.as_str()).concat("][").concat("price").concat(
                "]",
            );
            let ghost before = fields@;
            fields.push((id_name, to_decimal(ids[i] as u64)));
            fields.push((price_name, String::new()));
            assert forall|j: int| 0 <= j < 2 * (i + 1) implies (#[trigger] pairs_of(fields@)[j]) == form_of(
                ids@,
                self.user@,
            )[j] by {
                if j < 2 * i {
                    assert(fields@[j] == before[j]);
                    assert(pairs_of(before)[j] == form_of(ids@, self.user@)[j]);
                }
            }
            i += 1;
        }
        let ghost before = fields@;
        fields.push(pair("user", self.user.as_str()));
        assert forall|j: int| 0 <= j < 2 * ids.len() + 1 implies (#[trigger] pairs_of(fields@)[j]) == form_of(
            ids@,
            self.user@,
        )[j] by {
            if j < 2 * ids.len() {
                assert(fields@[j] == before[j]);
                assert(pairs_of(before)[j] == form_of(ids@, self.user@)[j]);
            }
        }
        assert(pairs_of(fields@) =~= form_of(ids@, self.user@));
        Some(fields)
    }

    /// The histories that the service's answer holds, one for each property
    /// of the answer and in its order.
    pub fn get_history(&self, properties: &Vec<Property>) -> (histories: Vec<PropertyLogHistory>)
        ensures
            histories.len() == properties.len(),
            forall|i: int|
                0 <= i < properties.len() ==> (#[trigger] histories[i]).id == properties[i].id
                    && histories[i].records@ == by_date(records_of(properties[i].prices@)),
    {
        let mut histories: Vec<PropertyLogHistory> = Vec::new();
        let mut i: usize = 0;
        while i < properties.len()
            invariant
                i <= properties.len(),
                histories.len() == i,
                forall|k: int|
                    0 <= k < i ==> (#[trigger] histories[k]).id == properties[k].id && histories[k].records@
                        == by_date(records_of(properties[k].prices@)),
            decreases properties.len() - i,
        {
            histories.push(history(&properties[i]));
            i += 1;
        }
        histories
    }
}

} // verus!

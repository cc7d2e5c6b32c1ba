//! The listing search: what is asked of it, and what is made of its answers.

use crate::aggregator::PropertyAggregator;
use crate::dates::parse_rfc3339;
use crate::dates::rfc3339_millis;
use crate::error::Error;
use crate::http::HttpOptions;
use crate::http::pair;
use crate::http::pairs_of;
use crate::markup::attributes_of;
use crate::markup::select_attributes;
use crate::markup::texts_of;
use crate::order::covers;
use crate::order::distinct_order;
use crate::order::distinct_order_of;
use crate::order::is_distinct_order;
use crate::order::lemma_distinct_order_exists;
use crate::order::lemma_distinct_order_fits;
use crate::order::lemma_distinct_order_of_ascending;
use crate::pattern::capture;
use crate::pattern::captured;
use crate::property::Coordinates;
use crate::property::PropertyAction;
use crate::property::PropertyStats;
use crate::retry::Backoff;
use crate::retry::RetryPolicy;
use crate::text::chars_of;
use crate::text::decimal;
use crate::text::parse_signed;
use crate::text::signed_decimal;
use crate::text::str_eq;
use crate::text::strip_commas;
use crate::text::text_of;
use crate::text::to_decimal;
use crate::text::without_commas;
use vstd::prelude::*;

verus! {

/// A size in square feet is whatever stands before this unit.
pub const SQUARE_FEET_PATTERN: &'static str = "(.*) sq. ft.";

/// Where a location is looked up: the postcode follows.
pub const LOCATION_URL: &'static str =
    "https://www.rightmove.co.uk/property-for-sale/search.html?searchLocation=";

/// The elements of the looked-up page that hold the location identifier.
pub const LOCATION_SELECTOR: &'static str = "#locationIdentifier";

/// The attribute of such an element that holds it.
pub const LOCATION_ATTRIBUTE: &'static str = "value";

/// Where a search is made.
pub const SEARCH_URL: &'static str = "https://www.rightmove.co.uk/api/_search";

/// How many results a page of a search holds.
pub const NUM_PROPERTIES_PER_PAGE: u32 = 24;

/// How often a page is asked for before the search is given up.
pub const PAGE_TRIES: u32 = 3;

/// The reason with which a listing's update marks a lowered price.
pub const PRICE_REDUCED: &'static str = "price_reduced";

#[derive(Debug)]
pub struct LocationResponse {
    /// Degrees, as the bits of a double.
    pub latitude: u64,
    /// Degrees, as the bits of a double.
    pub longitude: u64,
}

#[derive(Debug)]
pub struct PriceResponse {
    pub amount: u32,
    pub frequency: String,
    pub currency_code: String,
}

#[derive(Debug)]
pub struct ListingUpdateResponse {
    pub listing_update_reason: Option<String>,
    pub listing_update_date: Option<String>,
}

#[derive(Debug)]
pub struct PropertyResponse {
    pub id: u32,
    pub location: LocationResponse,
    pub price: PriceResponse,
    pub display_size: Option<String>,
    pub first_visible_date: String,
    pub listing_update: ListingUpdateResponse,
    pub property_sub_type: String,
    pub display_status: String,
}

#[derive(Debug)]
pub struct PaginationResponse {
    pub total: u32,
}

#[derive(Debug)]
pub struct SearchResponse {
    pub result_count: String,
    pub properties: Vec<PropertyResponse>,
    pub pagination: PaginationResponse,
}

impl Clone for LocationResponse {
    fn clone(&self) -> (copy: Self)
        ensures
            copy == *self,
    {
        LocationResponse { latitude: self.latitude, longitude: self.longitude }
    }
}

impl Clone for PriceResponse {
    fn clone(&self) -> (copy: Self)
        ensures
            copy == *self,
    {
        PriceResponse {
            amount: self.amount,
            frequency: self.frequency.clone(),
            currency_code: self.currency_code.clone(),
        }
    }
}

impl Clone for ListingUpdateResponse {
    fn clone(&self) -> (copy: Self)
        ensures
            copy == *self,
    {
        ListingUpdateResponse {
            listing_update_reason: self.listing_update_reason.clone(),
            listing_update_date: self.listing_update_date.clone(),
        }
    }
}

impl Clone for PropertyResponse {
    fn clone(&self) -> (copy: Self)
        ensures
            copy == *self,
    {
        PropertyResponse {
            id: self.id,
            location: self.location.clone(),
            price: self.price.clone(),
            display_size: self.display_size.clone(),
            first_visible_date: self.first_visible_date.clone(),
            listing_update: self.listing_update.clone(),
            property_sub_type: self.property_sub_type.clone(),
            display_status: self.display_status.clone(),
        }
    }
}

/// One advert, as the statistics read it.
#[derive(Clone, Copy, Debug, PartialEq, Eq, Structural)]
pub struct RightmoveProperty {
    pub id: u32,
    pub coordinates: Coordinates,
    /// The whole price to buy; the price of a month to rent.
    pub price: i64,
    pub square_feet: Option<i32>,
    /// When the advert first showed, in milliseconds since the epoch.
    pub post_date: i64,
    /// When the price was last lowered, in milliseconds since the epoch.
    pub reduced_date: Option<i64>,
    pub transacted: bool,
}

/// The kinds of property that are left out of every search result.
pub open spec fn blacklisted(sub_type: Seq<char>) -> bool {
    ||| sub_type == "Garages"@
    ||| sub_type == "Hotel Room"@
    ||| sub_type == "Land for sale"@
    ||| sub_type == "Not Specified"@
    ||| sub_type == "Office"@
    ||| sub_type == "Parking"@
    ||| sub_type == "Plot for sale"@
}

/// The states in which a property is as good as let or sold: one of three,
/// letter for letter and in these very cases.
pub open spec fn transacted(display_status: Seq<char>) -> bool {
    ||| display_status == "let agreed"@
    ||| display_status == "sold subject to contract"@
    ||| display_status == "under offer"@
}

/// The price of a month: 52 weeks make 12 months, and so does a year; a
/// price by the month, or without a frequency, stands as it is. Fractions of
/// a pound are dropped. No price comes of an unknown frequency.
pub open spec fn monthly_price(amount: u32, frequency: Seq<char>) -> Option<i64> {
    if frequency == "weekly"@ {
        Some((amount * 52 / 12) as i64)
    } else if frequency == "yearly"@ {
        Some((amount / 12) as i64)
    } else if frequency == "monthly"@ || frequency == "not specified"@ {
        Some(amount as i64)
    } else {
        None
    }
}

/// The number of square feet that stands before the unit: a decimal integer
/// of 32 bits, with or without commas between its digits.
pub open spec fn square_feet_of(number: Option<Seq<char>>) -> Option<i32> {
    match number {
        Some(digits) => match signed_decimal(without_commas(digits)) {
            Some(v) => if i32::MIN <= v <= i32::MAX {
                Some(v as i32)
            } else {
                None
            },
            None => None,
        },
        None => None,
    }
}

/// What stands before the unit in a size, if the size has the unit.
pub open spec fn size_number(display_size: Option<String>) -> Option<Seq<char>> {
    match display_size {
        Some(size) => captured(SQUARE_FEET_PATTERN@, size@, 1),
        None => None,
    }
}

/// When the price was last lowered: the date of the update, where the update
/// has a date and its reason is a lowered price.
pub open spec fn reduced_date_of(update: ListingUpdateResponse) -> Result<Option<i64>, Error> {
    match (update.listing_update_reason, update.listing_update_date) {
        (Some(reason), Some(date)) => if reason@ == PRICE_REDUCED@ {
            match rfc3339_millis(date@) {
                Some(millis) => Ok(Some(millis as i64)),
                None => Err(Error::UnreadableDate),
            }
        } else {
            Ok(None)
        },
        _ => Ok(None),
    }
}

/// The advert that a search result stands for.
pub open spec fn property_of(response: PropertyResponse) -> Result<RightmoveProperty, Error> {
    match monthly_price(response.price.amount, response.price.frequency@) {
        None => Err(Error::UnrecognisedPriceFrequency),
        Some(price) => match rfc3339_millis(response.first_visible_date@) {
            None => Err(Error::UnreadableDate),
            Some(post_date) => match reduced_date_of(response.listing_update) {
                Err(e) => Err(e),
                Ok(reduced_date) => Ok(
                    RightmoveProperty {
                        id: response.id,
                        coordinates: Coordinates {
                            longitude: response.location.longitude,
                            latitude: response.location.latitude,
                        },
                        price,
                        square_feet: square_feet_of(size_number(response.display_size)),
                        post_date: post_date as i64,
                        reduced_date,
                        transacted: transacted(response.display_status@),
                    },
                ),
            },
        },
    }
}

/// A price by the week is 52 twelfths of itself by the month, and a price by
/// the year one twelfth, each without its fraction; a price by the month, or
/// without a frequency, is what it is.
pub proof fn lemma_monthly_prices(amount: u32)
    ensures
        monthly_price(amount, "weekly"@) == Some((amount * 52 / 12) as i64),
        monthly_price(amount, "yearly"@) == Some((amount / 12) as i64),
        monthly_price(amount, "monthly"@) == Some(amount as i64),
        monthly_price(amount, "not specified"@) == Some(amount as i64),
{
    reveal_strlit("weekly");
    reveal_strlit("yearly");
    reveal_strlit("monthly");
    reveal_strlit("not specified");
    assert("yearly"@[0] != "weekly"@[0]);
    assert("monthly"@[0] != "weekly"@[0]);
    assert("monthly"@[0] != "yearly"@[0]);
    assert("not specified"@[0] != "weekly"@[0]);
    assert("not specified"@[0] != "yearly"@[0]);
}

pub fn is_blacklisted(sub_type: &str) -> (r: bool)
    ensures
        r == blacklisted(sub_type@),
{
    str_eq(sub_type, "Garages") || str_eq(sub_type, "Hotel Room") || str_eq(sub_type, "Land for sale")
        || str_eq(sub_type, "Not Specified") || str_eq(sub_type, "Office") || str_eq(
        sub_type,
        "Parking",
    ) || str_eq(sub_type, "Plot for sale")
}

pub fn is_transacted(display_status: &str) -> (r: bool)
    ensures
        r == transacted(display_status@),
{
    str_eq(display_status, "let agreed") || str_eq(display_status, "sold subject to contract") || str_eq(
        display_status,
        "under offer",
    )
}

/// The price of a month, or `UnrecognisedPriceFrequency`.
pub fn parse_price(price: &PriceResponse) -> (r: Result<i64, Error>)
    ensures
        r == match monthly_price(price.amount, price.frequency@) {
            Some(monthly) => Ok::<i64, Error>(monthly),
            None => Err(Error::UnrecognisedPriceFrequency),
        },
{
    let frequency = price.frequency.as_str();
    if str_eq(frequency, "weekly") {
        Ok(price.amount as i64 * 52 / 12)
    } else if str_eq(frequency, "yearly") {
        Ok((price.amount / 12) as i64)
    } else if str_eq(frequency, "monthly") || str_eq(frequency, "not specified") {
        Ok(price.amount as i64)
    } else {
        Err(Error::UnrecognisedPriceFrequency)
    }
}

/// The number of square feet in what stands before the unit.
pub fn square_feet_from_number(number: &Option<String>) -> (r: Option<i32>)
    ensures
        r == square_feet_of(text_of(*number)),
{
    match number {
        Some(digits) => {
            let plain = strip_commas(&chars_of(digits.as_str()));
            match parse_signed(&plain, 2147483648, 2147483647) {
                Some(v) => Some(v as i32),
                None => None,
            }
        },
        None => None,
    }
}

/// The number of square feet in a size such as `1,250 sq. ft.`, if there is
/// one.
pub fn parse_square_feet(display_size: &Option<String>) -> (r: Option<i32>)
    ensures
        r == square_feet_of(size_number(*display_size)),
{
    match display_size {
        Some(size) => {
            let number = capture(SQUARE_FEET_PATTERN, size.as_str(), 1);
            square_feet_from_number(&number)
        },
        None => None,
    }
}

/// The instant of an RFC 3339 date and time, or `UnreadableDate`.
pub fn parse_date(text: &str) -> (r: Result<i64, Error>)
    ensures
        r == match rfc3339_millis(text@) {
            Some(millis) => Ok::<i64, Error>(millis as i64),
            None => Err(Error::UnreadableDate),
        },
{
    match parse_rfc3339(text) {
        Some(millis) => Ok(millis),
        None => Err(Error::UnreadableDate),
    }
}

/// When the price was last lowered, if it was.
pub fn reduced_date(update: &ListingUpdateResponse) -> (r: Result<Option<i64>, Error>)
    ensures
        r == reduced_date_of(*update),
{
    match (&update.listing_update_reason, &update.listing_update_date) {
        (Some(reason), Some(date)) => {
            if str_eq(reason.as_str(), PRICE_REDUCED) {
                match parse_date(date.as_str()) {
                    Ok(millis) => Ok(Some(millis)),
                    Err(e) => Err(e),
                }
            } else {
                Ok(None)
            }
        },
        _ => Ok(None),
    }
}

/// The advert that a search result stands for.
pub fn property(response: &PropertyResponse) -> (r: Result<RightmoveProperty, Error>)
    ensures
        r == property_of(*response),
{
    let price = match parse_price(&response.price) {
        Ok(price) => price,
        Err(e) => {
            return Err(e);
        },
    };
    let post_date = match parse_date(response.first_visible_date.as_str()) {
        Ok(millis) => millis,
        Err(e) => {
            return Err(e);
        },
    };
    let reduced = match reduced_date(&response.listing_update) {
        Ok(reduced) => reduced,
        Err(e) => {
            return Err(e);
        },
    };
    Ok(
        RightmoveProperty {
            id: response.id,
            coordinates: Coordinates {
                longitude: response.location.longitude,
                latitude: response.location.latitude,
            },
            price,
            square_feet: parse_square_feet(&response.display_size),
            post_date,
            reduced_date: reduced,
            transacted: is_transacted(response.display_status.as_str()),
        },
    )
}

/// Whether a search result is of a kind that is kept.
pub open spec fn is_listed() -> spec_fn(PropertyResponse) -> bool {
    |response: PropertyResponse| !blacklisted(response.property_sub_type@)
}

/// The search results of the kinds that are kept, in their order.
pub open spec fn listed(items: Seq<PropertyResponse>) -> Seq<PropertyResponse> {
    items.filter(is_listed())
}

/// The identifiers of search results, in their order.
pub open spec fn ids(items: Seq<PropertyResponse>) -> Seq<i64> {
    Seq::new(items.len(), |i: int| items[i].id as i64)
}

/// One search result for each identifier, by ascending identifier: of the
/// results with one identifier, the one that came first.
pub open spec fn deduplicated(items: Seq<PropertyResponse>) -> Seq<PropertyResponse> {
    let firsts = distinct_order_of(ids(items));
    Seq::new(firsts.len(), |i: int| items[firsts[i] as int])
}

/// The search results of all pages, page after page.
pub open spec fn all_properties(pages: Seq<SearchResponse>) -> Seq<PropertyResponse>
    decreases pages.len(),
{
    if pages.len() == 0 {
        Seq::empty()
    } else {
        all_properties(pages.drop_last()) + pages.last().properties@
    }
}

/// The adverts that search results stand for, or what is wrong with the
/// first result that stands for none.
pub open spec fn properties_of(items: Seq<PropertyResponse>) -> Result<Seq<RightmoveProperty>, Error>
    decreases items.len(),
{
    if items.len() == 0 {
        Ok(Seq::empty())
    } else {
        match properties_of(items.drop_last()) {
            Err(e) => Err(e),
            Ok(adverts) => match property_of(items.last()) {
                Err(e) => Err(e),
                Ok(advert) => Ok(adverts.push(advert)),
            },
        }
    }
}

/// The outcome of a search, with the adverts as a sequence.
pub open spec fn outcome_of(r: Result<Vec<RightmoveProperty>, Error>) -> Result<Seq<RightmoveProperty>, Error> {
    match r {
        Ok(adverts) => Ok(adverts@),
        Err(e) => Err(e),
    }
}

/// One of the search results has the identifier `id`.
pub open spec fn holds_id(items: Seq<PropertyResponse>, id: u32) -> bool {
    exists|i: int| 0 <= i < items.len() && (#[trigger] items[i]).id == id
}

/// What is wrong with some of the search results is wrong with all of them.
proof fn lemma_failure_stays(items: Seq<PropertyResponse>, k: int)
    requires
        0 <= k <= items.len(),
        properties_of(items.take(k)) is Err,
    ensures
        properties_of(items) == properties_of(items.take(k)),
    decreases items.len() - k,
{
    if k == items.len() {
        assert(items.take(k) =~= items);
    } else {
        assert(items.drop_last().take(k) =~= items.take(k));
        lemma_failure_stays(items.drop_last(), k);
    }
}

/// A sequence whose elements all pass a filter passes it whole.
proof fn lemma_filter_keeps_all(items: Seq<PropertyResponse>)
    requires
        forall|i: int| 0 <= i < items.len() ==> is_listed()(#[trigger] items[i]),
    ensures
        listed(items) == items,
    decreases items.len(),
{
    reveal(Seq::filter);
    if items.len() > 0 {
        lemma_filter_keeps_all(items.drop_last());
        assert(items.drop_last().push(items.last()) =~= items);
    }
}

/// The identifiers of deduplicated search results strictly ascend, and each
/// of the results is one of those that were given.
pub proof fn lemma_deduplicated(items: Seq<PropertyResponse>)
    requires
        items.len() <= usize::MAX,
    ensures
        forall|i: int, j: int|
            0 <= i < j < deduplicated(items).len() ==> (#[trigger] deduplicated(items)[i]).id < (
            #[trigger] deduplicated(items)[j]).id,
        forall|i: int| 0 <= i < deduplicated(items).len() ==> items.contains(#[trigger] deduplicated(items)[i]),
        forall|k: int| 0 <= k < items.len() ==> holds_id(deduplicated(items), (#[trigger] items[k]).id),
{
    let keys = ids(items);
    lemma_distinct_order_exists(keys);
    let firsts = distinct_order_of(keys);
    let unique = deduplicated(items);
    assert forall|i: int, j: int| 0 <= i < j < unique.len() implies (#[trigger] unique[i]).id < (
    #[trigger] unique[j]).id by {
        assert(keys[firsts[i] as int] < keys[firsts[j] as int]);
    }
    assert forall|i: int| 0 <= i < unique.len() implies items.contains(#[trigger] unique[i]) by {
        assert(items[firsts[i] as int] == unique[i]);
    }
    assert forall|k: int| 0 <= k < items.len() implies holds_id(unique, (#[trigger] items[k]).id) by {
        assert(covers(keys, firsts, keys[k]));
        let i = choose|i: int| 0 <= i < firsts.len() && keys[#[trigger] firsts[i] as int] == keys[k];
        assert(unique[i].id == items[k].id);
    }
}

/// Filtering and deduplicating what was filtered and deduplicated changes
/// nothing.
pub proof fn lemma_filter_dedup_idempotent(items: Seq<PropertyResponse>)
    requires
        items.len() <= usize::MAX,
    ensures
        deduplicated(listed(deduplicated(listed(items)))) == deduplicated(listed(items)),
{
    let kept = listed(items);
    kept.lemma_filter_len(is_listed());
    items.lemma_filter_len(is_listed());
    let once = deduplicated(kept);
    lemma_deduplicated(kept);
    assert forall|i: int| 0 <= i < once.len() implies is_listed()(#[trigger] once[i]) by {
        assert(kept.contains(once[i]));
        let k = choose|k: int| 0 <= k < kept.len() && kept[k] == once[i];
        items.lemma_filter_pred(is_listed(), k);
    }
    lemma_filter_keeps_all(once);
    let keys = ids(once);
    assert forall|i: int, j: int| 0 <= i < j < keys.len() implies #[trigger] keys[i] < #[trigger] keys[j] by {
        assert(once[i].id < once[j].id);
    }
    lemma_distinct_order_exists(ids(kept));
    assert(once.len() == distinct_order_of(ids(kept)).len());
    lemma_distinct_order_fits(ids(kept), distinct_order_of(ids(kept)));
    lemma_distinct_order_of_ascending(keys);
    assert(deduplicated(once) =~= once);
}

/// The search results of the kinds that are kept.
pub fn filter_blacklisted(items: Vec<PropertyResponse>) -> (kept: Vec<PropertyResponse>)
    ensures
        kept@ == listed(items@),
{
    let ghost all = items@;
    let mut kept: Vec<PropertyResponse> = Vec::new();
    proof {
        reveal(Seq::filter);
    }
    for response in it: items
        invariant
            it.seq() == all,
            kept@ == listed(all.take(it.index() as int)),
    {
        proof {
            reveal(Seq::filter);
            assert(all.take(it.index() + 1).drop_last() =~= all.take(it.index() as int));
        }
        if !is_blacklisted(response.property_sub_type.as_str()) {
            kept.push(response);
        }
    }
    assert(all.take(all.len() as int) =~= all);
    kept
}

/// One search result for each identifier, by ascending identifier: of the
/// results with one identifier, the one that came first.
pub fn dedup_by_id(items: &Vec<PropertyResponse>) -> (unique: Vec<PropertyResponse>)
    ensures
        unique@ == deduplicated(items@),
        forall|i: int, j: int| 0 <= i < j < unique.len() ==> (#[trigger] unique[i]).id < (#[trigger] unique[j]).id,
        forall|k: int| 0 <= k < items.len() ==> holds_id(unique@, (#[trigger] items[k]).id),
        forall|i: int| 0 <= i < unique.len() ==> items@.contains(#[trigger] unique[i]),
{
    let mut keys: Vec<i64> = Vec::new();
    let mut k: usize = 0;
    while k < items.len()
        invariant
            k <= items.len(),
            keys@ == ids(items@.take(k as int)),
        decreases items.len() - k,
    {
        keys.push(items[k].id as i64);
        assert(keys@ =~= ids(items@.take(k + 1)));
        k += 1;
    }
    assert(items@.take(k as int) =~= items@);
    let firsts = distinct_order(&keys);
    let mut unique: Vec<PropertyResponse> = Vec::new();
    let mut i: usize = 0;
    while i < firsts.len()
        invariant
            i <= firsts.len(),
            keys@ == ids(items@),
            is_distinct_order(keys@, firsts@),
            unique@ == deduplicated(items@).take(i as int),
            firsts@ == distinct_order_of(ids(items@)),
        decreases firsts.len() - i,
    {
        unique.push(items[firsts[i]].clone());
        assert(unique@ =~= deduplicated(items@).take(i + 1));
        i += 1;
    }
    assert(deduplicated(items@).take(i as int) =~= deduplicated(items@));
    proof {
        assert(items@.len() == items.len());
        lemma_deduplicated(items@);
    }
    unique
}

/// The adverts that search results stand for, or what is wrong with the
/// first result that stands for none.
pub fn to_properties(items: &Vec<PropertyResponse>) -> (r: Result<Vec<RightmoveProperty>, Error>)
    ensures
        outcome_of(r) == properties_of(items@),
{
    let mut adverts: Vec<RightmoveProperty> = Vec::new();
    let mut i: usize = 0;
    while i < items.len()
        invariant
            i <= items.len(),
            properties_of(items@.take(i as int)) == Ok::<Seq<RightmoveProperty>, Error>(adverts@),
        decreases items.len() - i,
    {
        assert(items@.take(i + 1).drop_last() =~= items@.take(i as int));
        match property(&items[i]) {
            Ok(advert) => {
                adverts.push(advert);
            },
            Err(e) => {
                proof {
                    lemma_failure_stays(items@, i + 1);
                }
                return Err(e);
            },
        }
        i += 1;
    }
    assert(items@.take(i as int) =~= items@);
    Ok(adverts)
}

/// The adverts of a whole search: the results of all its pages, without the
/// kinds that are left out, one for each identifier.
pub open spec fn search_of(pages: Seq<SearchResponse>) -> Result<Seq<RightmoveProperty>, Error> {
    properties_of(deduplicated(listed(all_properties(pages))))
}

/// Search results stand for adverts exactly when each of them stands for
/// one, and then advert for result in their order.
pub proof fn lemma_properties_of(items: Seq<PropertyResponse>)
    ensures
        properties_of(items) is Ok <==> forall|i: int| 0 <= i < items.len() ==> property_of(#[trigger] items[i]) is Ok,
        properties_of(items) matches Ok(adverts) ==> adverts.len() == items.len() && forall|i: int|
            0 <= i < items.len() ==> property_of(#[trigger] items[i]) == Ok::<RightmoveProperty, Error>(adverts[i]),
    decreases items.len(),
{
    if items.len() > 0 {
        let earlier = items.drop_last();
        lemma_properties_of(earlier);
        assert forall|i: int| 0 <= i < earlier.len() implies earlier[i] == items[i] by {}
        if properties_of(items) is Ok {
            assert forall|i: int| 0 <= i < items.len() implies property_of(#[trigger] items[i]) is Ok by {
                if i < earlier.len() {
                    assert(property_of(earlier[i]) is Ok);
                }
            }
        }
        if forall|i: int| 0 <= i < items.len() ==> property_of(#[trigger] items[i]) is Ok {
            assert forall|i: int| 0 <= i < earlier.len() implies property_of(#[trigger] earlier[i]) is Ok by {
                assert(property_of(items[i]) is Ok);
            }
            assert(property_of(items[items.len() - 1]) is Ok);
        }
    }
}

/// A search result stands for an advert exactly when the frequency of its
/// price is a known one and its dates can be read: the date on which it
/// first showed, and the date of its update where that update lowered the
/// price.
pub proof fn lemma_property_of(response: PropertyResponse)
    ensures
        property_of(response) is Ok <==> monthly_price(response.price.amount, response.price.frequency@) is Some
            && rfc3339_millis(response.first_visible_date@) is Some && reduced_date_of(
            response.listing_update,
        ) is Ok,
{
}

/// A search whose pages are searched again gives what it gave: what one
/// search keeps, a second search keeps as it is, in the same order.
pub proof fn lemma_search_idempotent(pages: Seq<SearchResponse>)
    requires
        all_properties(pages).len() <= usize::MAX,
    ensures
        ({
            let kept = deduplicated(listed(all_properties(pages)));
            &&& deduplicated(listed(kept)) == kept
            &&& properties_of(deduplicated(listed(kept))) == search_of(pages)
            &&& forall|i: int| 0 <= i < kept.len() ==> !blacklisted((#[trigger] kept[i]).property_sub_type@)
            &&& forall|i: int, j: int| 0 <= i < j < kept.len() ==> (#[trigger] kept[i]).id < (#[trigger] kept[j]).id
        }),
{
    let all = all_properties(pages);
    let once = listed(all);
    let kept = deduplicated(once);
    lemma_filter_dedup_idempotent(all);
    all.lemma_filter_len(is_listed());
    lemma_deduplicated(once);
    assert forall|i: int| 0 <= i < kept.len() implies !blacklisted((#[trigger] kept[i]).property_sub_type@) by {
        assert(once.contains(kept[i]));
        let k = choose|k: int| 0 <= k < once.len() && once[k] == kept[i];
        all.lemma_filter_pred(is_listed(), k);
    }
}

/// Adverts have the identifiers of the search results that they stand for.
pub proof fn lemma_same_ids(items: Seq<PropertyResponse>)
    ensures
        properties_of(items) matches Ok(adverts) ==> adverts.len() == items.len() && forall|i: int|
            0 <= i < items.len() ==> (#[trigger] adverts[i]).id == items[i].id,
    decreases items.len(),
{
    if items.len() > 0 {
        lemma_same_ids(items.drop_last());
    }
}

/// The location identifier among the values that the looked-up page
/// holds: the first of them that is there and not empty.
pub open spec fn location_identifier_of(values: Seq<Option<Seq<char>>>) -> Result<Seq<char>, Error>
    decreases values.len(),
{
    if values.len() == 0 {
        Err(Error::LocationNotFound)
    } else {
        match values[0] {
            Some(identifier) => if identifier.len() > 0 {
                Ok(identifier)
            } else {
                location_identifier_of(values.skip(1))
            },
            None => location_identifier_of(values.skip(1)),
        }
    }
}

/// The characters of a location identifier, or why there is none.
pub open spec fn identifier_text(r: Result<String, Error>) -> Result<Seq<char>, Error> {
    match r {
        Ok(identifier) => Ok(identifier@),
        Err(e) => Err(e),
    }
}

/// The query that asks for the page `pagination_index` of a search: results
/// start at the index `pagination_index * 24`, and the least and the most
/// bedrooms are the same number.
pub open spec fn search_query_of(
    location_identifier: Seq<char>,
    action: PropertyAction,
    num_beds: u32,
    radius: Seq<char>,
    pagination_index: u32,
) -> Seq<(Seq<char>, Seq<char>)> {
    seq![
        ("locationIdentifier"@, location_identifier),
        ("maxBedrooms"@, decimal(num_beds as nat)),
        ("minBedrooms"@, decimal(num_beds as nat)),
        ("numberOfPropertiesPerPage"@, decimal(NUM_PROPERTIES_PER_PAGE as nat)),
        ("radius"@, radius),
        ("index"@, decimal((pagination_index * NUM_PROPERTIES_PER_PAGE) as nat)),
        ("includeSSTC"@, "true"@),
        ("includeLetAgreed"@, "true"@),
        ("viewType"@, "LIST"@),
        ("channel"@, action.channel_of()),
        ("areaSizeUnit"@, "sqft"@),
        ("currencyCode"@, "GBP"@),
    ]
}

/// The pages that are left to ask for when the first page says that there
/// are `total` pages: 1, 2, and so on up to `total - 1`.
pub open spec fn remaining_pages_of(total: u32) -> Seq<u32> {
    Seq::new(
        if total > 1 {
            (total - 1) as nat
        } else {
            0
        },
        |i: int| (i + 1) as u32,
    )
}

/// The location identifier among the values that the looked-up page
/// holds, or `LocationNotFound`.
pub fn location_identifier_from(values: &Vec<Option<String>>) -> (r: Result<String, Error>)
    ensures
        identifier_text(r) == location_identifier_of(texts_of(values@)),
{
    let mut i: usize = 0;
    assert(texts_of(values@).skip(0) =~= texts_of(values@));
    while i < values.len()
        invariant
            i <= values.len(),
            location_identifier_of(texts_of(values@)) == location_identifier_of(texts_of(values@).skip(i as int)),
        decreases values.len() - i,
    {
        assert(texts_of(values@).skip(i as int)[0] == texts_of(values@)[i as int]);
        assert(texts_of(values@).skip(i as int).skip(1) =~= texts_of(values@).skip(i + 1));
        match &values[i] {
            Some(identifier) => {
                if !identifier.as_str().is_empty() {
                    return Ok(identifier.clone());
                }
            },
            None => {},
        }
        i += 1;
    }
    Err(Error::LocationNotFound)
}

/// The listing search, with its own bound on open connections.
#[derive(Debug)]
pub struct Rightmove {
    pub options: HttpOptions,
}

impl Rightmove {
    /// The listing search with at most `max_parallel_connections` requests
    /// in flight; the rest of its client is set by default.
    pub fn new(max_parallel_connections: usize) -> (rightmove: Rightmove)
        ensures
            rightmove.options.max_parallel_connections == Some(max_parallel_connections),
            rightmove.options.max_retry_count is None,
            rightmove.options.referer is None,
    {
        Rightmove {
            options: HttpOptions {
                max_parallel_connections: Some(max_parallel_connections),
                max_retry_count: None,
                referer: None,
            },
        }
    }

    /// Where the location of `postcode` is looked up.
    pub fn location_url(&self, postcode: &str) -> (url: String)
        ensures
            url@ == LOCATION_URL@ + postcode@,
    {
        LOCATION_URL.to_owned().concat(postcode)
    }

    /// The location identifier that the looked-up page `page` holds, or
    /// `LocationNotFound`.
    pub fn get_location_identifier(&self, page: &str) -> (r: Result<String, Error>)
        ensures
            identifier_text(r) == location_identifier_of(
                attributes_of(page@, LOCATION_SELECTOR@, LOCATION_ATTRIBUTE@),
            ),
    {
        location_identifier_from(&select_attributes(page, LOCATION_SELECTOR, LOCATION_ATTRIBUTE))
    }

    /// The query that asks for the page `pagination_index` of a search.
    pub fn search_query(
        &self,
        location_identifier: &str,
        action: PropertyAction,
        num_beds: u32,
        radius: &str,
        pagination_index: u32,
    ) -> (query: Vec<(String, String)>)
        ensures
            pairs_of(query@) == search_query_of(location_identifier@, action, num_beds, radius@, pagination_index),
    {
        let beds = to_decimal(num_beds as u64);
        let per_page = to_decimal(NUM_PROPERTIES_PER_PAGE as u64);
        let index = to_decimal(pagination_index as u64 * NUM_PROPERTIES_PER_PAGE as u64);
        let mut query: Vec<(String, String)> = Vec::new();
        query.push(pair("locationIdentifier", location_identifier));
        query.push(pair("maxBedrooms", beds.as_str()));
        query.push(pair("minBedrooms", beds.as_str()));
        query.push(pair("numberOfPropertiesPerPage", per_page.as_str()));
        query.push(pair("radius", radius));
        query.push(pair("index", index.as_str()));
        query.push(pair("includeSSTC", "true"));
        query.push(pair("includeLetAgreed", "true"));
        query.push(pair("viewType", "LIST"));
        query.push(pair("channel", action.channel()));
        query.push(pair("areaSizeUnit", "sqft"));
        query.push(pair("currencyCode", "GBP"));
        assert(pairs_of(query@) =~= search_query_of(
            location_identifier@,
            action,
            num_beds,
            radius@,
            pagination_index,
        ));
        query
    }

    /// The pages that are left to ask for after the first page.
    pub fn remaining_pages(&self, first: &SearchResponse) -> (pages: Vec<u32>)
        ensures
            pages@ == remaining_pages_of(first.pagination.total),
    {
        let total = first.pagination.total;
        let mut pages: Vec<u32> = Vec::new();
        let mut index: u32 = 1;
        while index < total
            invariant
                1 <= index,
                index <= total || total == 0,
                total == 0 ==> index == 1,
                pages@ == remaining_pages_of(index),
            decreases total - index,
        {
            pages.push(index);
            assert(pages@ =~= remaining_pages_of((index + 1) as u32));
            index += 1;
        }
        assert(pages@ =~= remaining_pages_of(total));
        pages
    }

    /// How a page that failed is asked for again: at once, until it has been
    /// asked for three times.
    pub fn page_retry_policy(&self) -> (policy: RetryPolicy)
        ensures
            policy == (RetryPolicy {
                max_retries: (PAGE_TRIES - 1) as u32,
                base_delay_millis: 0,
                backoff: Backoff::Fixed,
            }),
    {
        RetryPolicy { max_retries: PAGE_TRIES - 1, base_delay_millis: 0, backoff: Backoff::Fixed }
    }

    /// The adverts of a whole search, from the pages that it brought.
    pub fn search(&self, pages: Vec<SearchResponse>) -> (r: Result<Vec<RightmoveProperty>, Error>)
        ensures
            outcome_of(r) == search_of(pages@),
            r is Ok <==> forall|i: int|
                0 <= i < deduplicated(listed(all_properties(pages@))).len() ==> property_of(
                    #[trigger] deduplicated(listed(all_properties(pages@)))[i],
                ) is Ok,
            r matches Ok(adverts) ==> forall|i: int, j: int|
                0 <= i < j < adverts.len() ==> (#[trigger] adverts[i]).id < (#[trigger] adverts[j]).id,
    {
        let ghost given = pages@;
        let mut all: Vec<PropertyResponse> = Vec::new();
        for page in it: pages
            invariant
                it.seq() == given,
                all@ == all_properties(given.take(it.index() as int)),
        {
            assert(given.take(it.index() + 1).drop_last() =~= given.take(it.index() as int));
            let mut results = page.properties;
            all.append(&mut results);
        }
        assert(given.take(given.len() as int) =~= given);
        let kept = filter_blacklisted(all);
        let unique = dedup_by_id(&kept);
        let r = to_properties(&unique);
        proof {
            assert(kept@.len() == kept.len());
            lemma_deduplicated(kept@);
            lemma_same_ids(unique@);
            lemma_properties_of(unique@);
        }
        r
    }

    /// The statistics of adverts at the instant `now`, in milliseconds since
    /// the epoch.
    pub fn to_stats(&self, properties: Vec<RightmoveProperty>, now: i64) -> (stats: PropertyStats)
        ensures
            stats == PropertyAggregator::stats_of(properties@, now),
    {
        PropertyAggregator::calculate_stats(properties, now)
    }
}

} // verus!

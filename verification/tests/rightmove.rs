use chrono::TimeZone;
use chrono::Utc;
use uk_property_search_data::error::Error;
use uk_property_search_data::http::HttpOptions;
use uk_property_search_data::property::Coordinates;
use uk_property_search_data::property::PropertyAction;
use uk_property_search_data::retry::Attempts;
use uk_property_search_data::retry::Decision;
use uk_property_search_data::retry::Outcome;
use uk_property_search_data::rightmove::dedup_by_id;
use uk_property_search_data::rightmove::filter_blacklisted;
use uk_property_search_data::rightmove::is_blacklisted;
use uk_property_search_data::rightmove::is_transacted;
use uk_property_search_data::rightmove::location_identifier_from;
use uk_property_search_data::rightmove::parse_date;
use uk_property_search_data::rightmove::parse_price;
use uk_property_search_data::rightmove::parse_square_feet;
use uk_property_search_data::rightmove::property;
use uk_property_search_data::rightmove::reduced_date;
use uk_property_search_data::rightmove::square_feet_from_number;
use uk_property_search_data::rightmove::to_properties;
use uk_property_search_data::rightmove::ListingUpdateResponse;
use uk_property_search_data::rightmove::LocationResponse;
use uk_property_search_data::rightmove::PaginationResponse;
use uk_property_search_data::rightmove::PriceResponse;
use uk_property_search_data::rightmove::PropertyResponse;
use uk_property_search_data::rightmove::Rightmove;
use uk_property_search_data::rightmove::RightmoveProperty;
use uk_property_search_data::rightmove::SearchResponse;

fn price(amount: u32, frequency: &str) -> PriceResponse {
    PriceResponse { amount, frequency: frequency.to_owned(), currency_code: "GBP".to_owned() }
}

fn response(id: u32, amount: u32, sub_type: &str) -> PropertyResponse {
    PropertyResponse {
        id,
        location: LocationResponse { latitude: 51.53419f64.to_bits(), longitude: (-0.122191f64).to_bits() },
        price: price(amount, "not specified"),
        display_size: None,
        first_visible_date: "2021-04-08T19:28:38Z".to_owned(),
        listing_update: ListingUpdateResponse { listing_update_reason: None, listing_update_date: None },
        property_sub_type: sub_type.to_owned(),
        display_status: "".to_owned(),
    }
}

fn page(total: u32, properties: Vec<PropertyResponse>) -> SearchResponse {
    SearchResponse { result_count: "0".to_owned(), properties, pagination: PaginationResponse { total } }
}

fn ids_and_prices(items: &[PropertyResponse]) -> Vec<(u32, u32)> {
    items.iter().map(|p| (p.id, p.price.amount)).collect()
}

fn pairs(query: &[(String, String)]) -> Vec<(&str, &str)> {
    query.iter().map(|(k, v)| (k.as_str(), v.as_str())).collect()
}

const PAGE: &str = "<html><head><title>Search</title></head><body><form>\
    <input type=\"hidden\" id=\"searchLocation\" value=\"N1 9AL\">\
    <input type=\"hidden\" id=\"locationIdentifier\" value=\"POSTCODE^544984\">\
    </form></body></html>";

#[test]
fn test_get_location_identifier() {
    let rightmove = Rightmove::new(4);
    assert_eq!(
        rightmove.location_url("N1 9AL"),
        "https://www.rightmove.co.uk/property-for-sale/search.html?searchLocation=N1 9AL"
    );
    let location_identifier = rightmove.get_location_identifier(PAGE).unwrap();
    assert_eq!(location_identifier, "POSTCODE^544984");
}

#[test]
fn location_identifier_must_be_there_and_not_be_empty() {
    let rightmove = Rightmove::new(4);
    let empty = "<html><body><input id=\"locationIdentifier\" value=\"\"></body></html>";
    assert_eq!(rightmove.get_location_identifier(empty), Err(Error::LocationNotFound));
    let no_value = "<html><body><input id=\"locationIdentifier\"></body></html>";
    assert_eq!(rightmove.get_location_identifier(no_value), Err(Error::LocationNotFound));
    let no_element = "<html><body><p>No such place</p></body></html>";
    assert_eq!(rightmove.get_location_identifier(no_element), Err(Error::LocationNotFound));
    assert_eq!(rightmove.get_location_identifier(""), Err(Error::LocationNotFound));
    assert_eq!(location_identifier_from(&vec![]), Err(Error::LocationNotFound));
    assert_eq!(location_identifier_from(&vec![None]), Err(Error::LocationNotFound));
    assert_eq!(location_identifier_from(&vec![Some("".to_owned())]), Err(Error::LocationNotFound));
    assert_eq!(location_identifier_from(&vec![Some("REGION^1".to_owned())]), Ok("REGION^1".to_owned()));
    assert_eq!(
        location_identifier_from(&vec![None, Some("".to_owned()), Some("REGION^1".to_owned()), Some("X".to_owned())]),
        Ok("REGION^1".to_owned())
    );
}

#[test]
fn the_first_value_that_is_not_empty_counts() {
    let rightmove = Rightmove::new(4);
    let twice = "<html><body><input id=\"locationIdentifier\" value=\"FIRST\">\
        <input id=\"locationIdentifier\" value=\"SECOND\"></body></html>";
    assert_eq!(rightmove.get_location_identifier(twice), Ok("FIRST".to_owned()));
    let later = "<html><body><input id=\"locationIdentifier\" value=\"\">\
        <input id=\"locationIdentifier\"><input id=\"locationIdentifier\" value=\"THIRD\"></body></html>";
    assert_eq!(rightmove.get_location_identifier(later), Ok("THIRD".to_owned()));
}

#[test]
fn new_sets_the_bound_on_connections_only() {
    let rightmove = Rightmove::new(7);
    let HttpOptions { max_parallel_connections, max_retry_count, referer } = rightmove.options;
    assert_eq!(max_parallel_connections, Some(7));
    assert_eq!(max_retry_count, None);
    assert_eq!(referer, None);
}

#[test]
fn weekly_prices_become_monthly() {
    assert_eq!(parse_price(&price(100, "weekly")), Ok(433));
    assert_eq!(parse_price(&price(300, "weekly")), Ok(1300));
    assert_eq!(parse_price(&price(u32::MAX, "weekly")), Ok(4294967295i64 * 52 / 12));
}

#[test]
fn yearly_prices_become_monthly() {
    assert_eq!(parse_price(&price(1200, "yearly")), Ok(100));
    assert_eq!(parse_price(&price(1211, "yearly")), Ok(100));
    assert_eq!(parse_price(&price(11, "yearly")), Ok(0));
}

#[test]
fn monthly_and_unspecified_prices_stay() {
    assert_eq!(parse_price(&price(950, "monthly")), Ok(950));
    assert_eq!(parse_price(&price(3600000, "not specified")), Ok(3600000));
}

#[test]
fn an_unknown_frequency_is_an_error() {
    assert_eq!(parse_price(&price(950, "daily")), Err(Error::UnrecognisedPriceFrequency));
    assert_eq!(parse_price(&price(950, "Weekly")), Err(Error::UnrecognisedPriceFrequency));
    assert_eq!(parse_price(&price(950, "")), Err(Error::UnrecognisedPriceFrequency));
}

#[test]
fn square_feet_stand_before_the_unit() {
    assert_eq!(parse_square_feet(&Some("1,250 sq. ft.".to_owned())), Some(1250));
    assert_eq!(parse_square_feet(&Some("700 sq. ft.".to_owned())), Some(700));
    assert_eq!(parse_square_feet(&Some("1,234,567 sq. ft.".to_owned())), Some(1234567));
    assert_eq!(parse_square_feet(&Some("65 sq. m.".to_owned())), None);
    assert_eq!(parse_square_feet(&Some("".to_owned())), None);
    assert_eq!(parse_square_feet(&None), None);
}

#[test]
fn a_size_that_is_no_number_is_no_size() {
    assert_eq!(parse_square_feet(&Some("about 700 sq. ft.".to_owned())), None);
    assert_eq!(parse_square_feet(&Some("700.5 sq. ft.".to_owned())), None);
    assert_eq!(parse_square_feet(&Some(" sq. ft.".to_owned())), None);
    assert_eq!(parse_square_feet(&Some("3,000,000,000 sq. ft.".to_owned())), None);
    assert_eq!(square_feet_from_number(&Some("2147483647".to_owned())), Some(2147483647));
    assert_eq!(square_feet_from_number(&Some("2147483648".to_owned())), None);
    assert_eq!(square_feet_from_number(&Some("-5".to_owned())), Some(-5));
    assert_eq!(square_feet_from_number(&Some(",".to_owned())), None);
    assert_eq!(square_feet_from_number(&None), None);
}

#[test]
fn dates_are_instants() {
    let expected = Utc.with_ymd_and_hms(2021, 4, 8, 19, 28, 38).unwrap().timestamp_millis();
    assert_eq!(parse_date("2021-04-08T19:28:38Z"), Ok(expected));
    assert_eq!(parse_date("2021-04-08T20:28:38+01:00"), Ok(expected));
    assert_eq!(parse_date("2021-04-08T19:28:38.250Z"), Ok(expected + 250));
    assert_eq!(parse_date("1970-01-01T00:00:00Z"), Ok(0));
    assert_eq!(parse_date("08/04/2021"), Err(Error::UnreadableDate));
    assert_eq!(parse_date(""), Err(Error::UnreadableDate));
}

#[test]
fn a_reduction_needs_its_reason_and_its_date() {
    let update = |reason: Option<&str>, date: Option<&str>| ListingUpdateResponse {
        listing_update_reason: reason.map(|s| s.to_owned()),
        listing_update_date: date.map(|s| s.to_owned()),
    };
    let expected = Utc.with_ymd_and_hms(2023, 7, 3, 0, 33, 55).unwrap().timestamp_millis();
    assert_eq!(reduced_date(&update(Some("price_reduced"), Some("2023-07-03T00:33:55Z"))), Ok(Some(expected)));
    assert_eq!(reduced_date(&update(Some("new"), Some("2023-07-03T00:33:55Z"))), Ok(None));
    assert_eq!(reduced_date(&update(Some("Price_reduced"), Some("2023-07-03T00:33:55Z"))), Ok(None));
    assert_eq!(reduced_date(&update(None, Some("2023-07-03T00:33:55Z"))), Ok(None));
    assert_eq!(reduced_date(&update(Some("price_reduced"), None)), Ok(None));
    assert_eq!(reduced_date(&update(None, None)), Ok(None));
    assert_eq!(reduced_date(&update(Some("price_reduced"), Some("yesterday"))), Err(Error::UnreadableDate));
    assert_eq!(reduced_date(&update(Some("new"), Some("yesterday"))), Ok(None));
}

#[test]
fn transacted_is_one_of_three_states() {
    assert!(is_transacted("let agreed"));
    assert!(is_transacted("sold subject to contract"));
    assert!(is_transacted("under offer"));
    assert!(!is_transacted("Let agreed"));
    assert!(!is_transacted("Sold STC"));
    assert!(!is_transacted("Under offer"));
    assert!(!is_transacted("UNDER OFFER"));
    assert!(!is_transacted("under  offer"));
    assert!(!is_transacted(" let agreed"));
    assert!(!is_transacted("sold"));
    assert!(!is_transacted(""));
}

#[test]
fn a_search_marks_the_transacted_adverts() {
    let rightmove = Rightmove::new(4);
    let mut results = Vec::new();
    let states = ["let agreed", "sold subject to contract", "under offer", "Sold STC", "available", "Let agreed"];
    for (id, state) in states.iter().enumerate() {
        let mut given = response(id as u32, 100, "Flat");
        given.display_status = state.to_string();
        results.push(given);
    }
    let found = rightmove.search(vec![page(1, results)]).unwrap();
    let marks: Vec<bool> = found.iter().map(|p| p.transacted).collect();
    assert_eq!(marks, vec![true, true, true, false, false, false]);
}

#[test]
fn seven_kinds_are_left_out() {
    for kind in ["Garages", "Hotel Room", "Land for sale", "Not Specified", "Office", "Parking", "Plot for sale"] {
        assert!(is_blacklisted(kind));
    }
    assert!(!is_blacklisted("Flat"));
    assert!(!is_blacklisted("garages"));
    assert!(!is_blacklisted(""));
}

#[test]
fn a_result_becomes_an_advert() {
    let mut given = response(105233438, 500, "Flat");
    given.price = price(500, "weekly");
    given.display_size = Some("1,050 sq. ft.".to_owned());
    given.listing_update = ListingUpdateResponse {
        listing_update_reason: Some("price_reduced".to_owned()),
        listing_update_date: Some("2023-02-15T21:09:03Z".to_owned()),
    };
    given.display_status = "let agreed".to_owned();
    assert_eq!(
        property(&given),
        Ok(RightmoveProperty {
            id: 105233438,
            coordinates: Coordinates { longitude: (-0.122191f64).to_bits(), latitude: 51.53419f64.to_bits() },
            price: 2166,
            square_feet: Some(1050),
            post_date: Utc.with_ymd_and_hms(2021, 4, 8, 19, 28, 38).unwrap().timestamp_millis(),
            reduced_date: Some(Utc.with_ymd_and_hms(2023, 2, 15, 21, 9, 3).unwrap().timestamp_millis()),
            transacted: true,
        })
    );
    let advert = property(&given).unwrap();
    assert_eq!(f64::from_bits(advert.coordinates.longitude), -0.122191);
    assert_eq!(f64::from_bits(advert.coordinates.latitude), 51.53419);
}

#[test]
fn what_is_wrong_with_a_result_comes_in_order() {
    let mut given = response(1, 500, "Flat");
    given.price = price(500, "hourly");
    given.first_visible_date = "never".to_owned();
    assert_eq!(property(&given), Err(Error::UnrecognisedPriceFrequency));
    given.price = price(500, "monthly");
    assert_eq!(property(&given), Err(Error::UnreadableDate));
}

#[test]
fn filter_drops_the_kinds_that_are_left_out() {
    let kept = filter_blacklisted(vec![
        response(3, 30, "Flat"),
        response(1, 10, "Garages"),
        response(2, 20, "Terraced"),
        response(4, 40, "Parking"),
    ]);
    assert_eq!(ids_and_prices(&kept), vec![(3, 30), (2, 20)]);
    assert!(filter_blacklisted(Vec::new()).is_empty());
}

#[test]
fn dedup_keeps_one_entry_for_a_duplicate_id() {
    let unique = dedup_by_id(&vec![response(1, 100, "Flat"), response(1, 999, "Flat")]);
    assert_eq!(ids_and_prices(&unique), vec![(1, 100)]);
}

#[test]
fn dedup_sorts_by_id_and_keeps_the_first_seen() {
    let unique = dedup_by_id(&vec![
        response(5, 50, "Flat"),
        response(2, 20, "Flat"),
        response(5, 51, "Flat"),
        response(1, 10, "Flat"),
        response(2, 21, "Flat"),
    ]);
    assert_eq!(ids_and_prices(&unique), vec![(1, 10), (2, 20), (5, 50)]);
    assert!(dedup_by_id(&Vec::new()).is_empty());
}

#[test]
fn filter_and_dedup_twice_is_filter_and_dedup_once() {
    let given = vec![
        response(9, 90, "Flat"),
        response(3, 30, "Office"),
        response(9, 91, "Garages"),
        response(3, 31, "Flat"),
        response(7, 70, "Flat"),
        response(9, 92, "Flat"),
    ];
    let once = dedup_by_id(&filter_blacklisted(given));
    assert_eq!(ids_and_prices(&once), vec![(3, 31), (7, 70), (9, 90)]);
    let twice = dedup_by_id(&filter_blacklisted(once.clone()));
    assert_eq!(ids_and_prices(&twice), ids_and_prices(&once));
}

#[test]
fn test_search() {
    let rightmove = Rightmove::new(4);
    let mut pages = Vec::new();
    for index in 0..3u32 {
        let mut properties = Vec::new();
        for offset in 0..24u32 {
            properties.push(response(1000 + index * 24 + offset, 600_000, "Flat"));
        }
        pages.push(page(3, properties));
    }
    let properties = rightmove.search(pages).unwrap();
    assert!(properties.len() > 10);
    assert_eq!(properties.len(), 72);
}

#[test]
fn test_search_no_duplicates() {
    let rightmove = Rightmove::new(4);
    let pages = vec![
        page(2, vec![response(12, 1, "Flat"), response(11, 2, "Flat"), response(13, 3, "Parking")]),
        page(2, vec![response(11, 4, "Flat"), response(14, 5, "Flat"), response(12, 6, "Flat")]),
    ];
    let properties = rightmove.search(pages).unwrap();
    let mut ids: Vec<u32> = properties.iter().map(|p| p.id).collect();
    ids.sort();
    ids.dedup();
    assert_eq!(ids.len(), properties.len());
    assert_eq!(properties.iter().map(|p| (p.id, p.price)).collect::<Vec<_>>(), vec![(11, 2), (12, 1), (14, 5)]);
}

#[test]
fn a_search_of_nothing_finds_nothing() {
    let rightmove = Rightmove::new(4);
    assert_eq!(rightmove.search(Vec::new()), Ok(Vec::new()));
    assert_eq!(rightmove.search(vec![page(0, Vec::new())]), Ok(Vec::new()));
}

#[test]
fn a_search_fails_on_a_result_that_is_kept_and_cannot_be_read() {
    let rightmove = Rightmove::new(4);
    let mut bad = response(2, 5, "Flat");
    bad.price = price(5, "fortnightly");
    assert_eq!(
        rightmove.search(vec![page(1, vec![response(1, 1, "Flat"), bad.clone()])]),
        Err(Error::UnrecognisedPriceFrequency)
    );
    // a result that is left out, or that comes second for its id, is never read
    let mut left_out = bad.clone();
    left_out.property_sub_type = "Office".to_owned();
    let found = rightmove.search(vec![page(1, vec![response(2, 1, "Flat"), bad, left_out])]).unwrap();
    assert_eq!(found.len(), 1);
    assert_eq!(to_properties(&Vec::new()), Ok(Vec::new()));
}

#[test]
fn the_query_of_a_page() {
    let rightmove = Rightmove::new(4);
    let query = rightmove.search_query("POSTCODE^544984", PropertyAction::Buy, 2, "0.25", 0);
    assert_eq!(
        pairs(&query),
        vec![
            ("locationIdentifier", "POSTCODE^544984"),
            ("maxBedrooms", "2"),
            ("minBedrooms", "2"),
            ("numberOfPropertiesPerPage", "24"),
            ("radius", "0.25"),
            ("index", "0"),
            ("includeSSTC", "true"),
            ("includeLetAgreed", "true"),
            ("viewType", "LIST"),
            ("channel", "BUY"),
            ("areaSizeUnit", "sqft"),
            ("currencyCode", "GBP"),
        ]
    );
    let later = rightmove.search_query("REGION^87490", PropertyAction::Rent, 0, "1", 3);
    assert_eq!(pairs(&later)[5], ("index", "72"));
    assert_eq!(pairs(&later)[9], ("channel", "RENT"));
    assert_eq!(pairs(&later)[1], ("maxBedrooms", "0"));
    let last = rightmove.search_query("", PropertyAction::Rent, u32::MAX, "", u32::MAX);
    assert_eq!(pairs(&last)[5], ("index", "103079215080"));
    assert_eq!(pairs(&last)[2], ("minBedrooms", "4294967295"));
}

#[test]
fn the_pages_after_the_first() {
    let rightmove = Rightmove::new(4);
    assert_eq!(rightmove.remaining_pages(&page(0, Vec::new())), Vec::<u32>::new());
    assert_eq!(rightmove.remaining_pages(&page(1, Vec::new())), Vec::<u32>::new());
    assert_eq!(rightmove.remaining_pages(&page(2, Vec::new())), vec![1]);
    assert_eq!(rightmove.remaining_pages(&page(5, Vec::new())), vec![1, 2, 3, 4]);
}

#[test]
fn a_page_is_asked_for_three_times_at_most() {
    let policy = Rightmove::new(4).page_retry_policy();
    let mut attempts = Attempts::new();
    assert_eq!(policy.decide(&mut attempts, Outcome::Transient), Decision::Retry { delay_millis: 0 });
    assert_eq!(policy.decide(&mut attempts, Outcome::Transient), Decision::Retry { delay_millis: 0 });
    assert_eq!(policy.decide(&mut attempts, Outcome::Transient), Decision::Exhausted);
    let mut again = Attempts::new();
    assert_eq!(policy.decide(&mut again, Outcome::Transient), Decision::Retry { delay_millis: 0 });
    assert_eq!(policy.decide(&mut again, Outcome::Success), Decision::Done);
}

#[test]
fn rightmove_test_get_stats() {
    let rightmove = Rightmove::new(4);
    let pages = vec![page(
        1,
        vec![response(1, 550_000, "Flat"), response(2, 2_500_000, "Flat"), response(3, 900_000, "Flat")],
    )];
    let properties = rightmove.search(pages).unwrap();
    let now = Utc.with_ymd_and_hms(2023, 8, 1, 0, 0, 0).unwrap().timestamp_millis();
    let stats = rightmove.to_stats(properties, now);
    let min = stats.price.min.unwrap();
    let max = stats.price.max.unwrap();
    assert!((min.numerator as f64 / min.denominator as f64) < 600_000.0);
    assert!((max.numerator as f64 / max.denominator as f64) > 2_000_000.0);
}

//! What the transport service says of a stop, and what is read from it.

use crate::pattern::capture;
use crate::pattern::captured;
use crate::text::str_eq;
use crate::text::text_of;
use crate::tube::names_of;
use vstd::prelude::*;

verus! {

/// Where the lines are asked for.
pub const LINES_URL: &'static str = "https://api.tfl.gov.uk/Line/Mode/tube/Route";

/// The postcode of an address is what follows its last comma, in capitals,
/// digits and spaces.
pub const POSTCODE_PATTERN: &'static str = ".*,([A-Z0-9 ]+)";

/// The lines of one mode of transport that call at a stop.
#[derive(Debug)]
pub struct LineModeGroupResponse {
    pub mode_name: String,
    pub line_identifier: Vec<String>,
}

#[derive(Debug)]
pub struct AdditionalPropertiesResponse {
    pub category: String,
    pub key: String,
    pub value: String,
}

/// Whether a property of a stop is its address.
pub open spec fn is_address(property: AdditionalPropertiesResponse) -> bool {
    property.category@ == "Address"@ && property.key@ == "Address"@
}

/// The first address among the properties of a stop.
pub open spec fn address_in(properties: Seq<AdditionalPropertiesResponse>) -> Option<Seq<char>>
    decreases properties.len(),
{
    if properties.len() == 0 {
        None
    } else if is_address(properties[0]) {
        Some(properties[0].value@)
    } else {
        address_in(properties.skip(1))
    }
}

/// The postcode of a stop: the one in its first address.
pub open spec fn postcode_in(properties: Seq<AdditionalPropertiesResponse>) -> Option<Seq<char>> {
    match address_in(properties) {
        Some(address) => captured(POSTCODE_PATTERN@, address, 1),
        None => None,
    }
}

/// The lines of the first group of the underground.
pub open spec fn tube_lines_in(groups: Seq<LineModeGroupResponse>) -> Option<Seq<Seq<char>>>
    decreases groups.len(),
{
    if groups.len() == 0 {
        None
    } else if groups[0].mode_name@ == "tube"@ {
        Some(names_of(groups[0].line_identifier@))
    } else {
        tube_lines_in(groups.skip(1))
    }
}

/// Where the stops of a line are asked for.
pub fn stop_points_url(line: &str) -> (url: String)
    ensures
        url@ == "https://api.tfl.gov.uk/Line/"@ + line@ + "/StopPoints"@,
{
    "https://api.tfl.gov.uk/Line/".to_owned().concat(line).concat("/StopPoints")
}

/// The first address among the properties of a stop.
pub fn address<'a>(properties: &'a Vec<AdditionalPropertiesResponse>) -> (found: Option<&'a str>)
    ensures
        match found {
            Some(address) => address_in(properties@) == Some(address@),
            None => address_in(properties@) is None,
        },
{
    let mut i: usize = 0;
    assert(properties@.skip(0) =~= properties@);
    while i < properties.len()
        invariant
            i <= properties.len(),
            address_in(properties@) == address_in(properties@.skip(i as int)),
        decreases properties.len() - i,
    {
        let property = &properties[i];
        assert(properties@.skip(i as int)[0] == properties@[i as int]);
        if str_eq(property.category.as_str(), "Address") && str_eq(property.key.as_str(), "Address") {
            return Some(property.value.as_str());
        }
        assert(properties@.skip(i as int).skip(1) =~= properties@.skip(i + 1));
        i += 1;
    }
    None
}

/// The postcode of a stop, if its properties give an address with one.
pub fn postcode(properties: &Vec<AdditionalPropertiesResponse>) -> (found: Option<String>)
    ensures
        text_of(found) == postcode_in(properties@),
{
    match address(properties) {
        Some(text) => capture(POSTCODE_PATTERN, text, 1),
        None => None,
    }
}

/// The lines of the underground that call at a stop, if any of its groups
/// is of the underground.
pub fn tube_lines(groups: &Vec<LineModeGroupResponse>) -> (lines: Option<Vec<String>>)
    ensures
        match lines {
            Some(names) => tube_lines_in(groups@) == Some(names_of(names@)),
            None => tube_lines_in(groups@) is None,
        },
{
    let mut i: usize = 0;
    assert(groups@.skip(0) =~= groups@);
    while i < groups.len()
        invariant
            i <= groups.len(),
            tube_lines_in(groups@) == tube_lines_in(groups@.skip(i as int)),
        decreases groups.len() - i,
    {
        let group = &groups[i];
        assert(groups@.skip(i as int)[0] == groups@[i as int]);
        if str_eq(group.mode_name.as_str(), "tube") {
            let mut names: Vec<String> = Vec::new();
            let mut k: usize = 0;
            while k < group.line_identifier.len()
                invariant
                    k <= group.line_identifier.len(),
                    names_of(names@) == names_of(group.line_identifier@.take(k as int)),
                decreases group.line_identifier.len() - k,
            {
                let ghost before = names_of(names@);
                let name = group.line_identifier[k].clone();
                assert(name@ == group.line_identifier@[k as int]@);
                names.push(name);
                assert(names_of(names@) =~= before.push(group.line_identifier@[k as int]@));
                assert(names_of(group.line_identifier@.take(k + 1)) =~= before.push(
                    group.line_identifier@[k as int]@,
                ));
                k += 1;
            }
            assert(group.line_identifier@.take(k as int) =~= group.line_identifier@);
            return Some(names);
        }
        assert(groups@.skip(i as int).skip(1) =~= groups@.skip(i + 1));
        i += 1;
    }
    None
}

} // verus!

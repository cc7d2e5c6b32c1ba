//! What is stored for one location, kind of transaction and number of
//! bedrooms.

use crate::stats::Stats;
use vstd::prelude::*;

verus! {

#[derive(Clone, Copy, Debug, PartialEq, Eq, Structural)]
pub enum PropertyAction {
    Buy,
    Rent,
}

impl PropertyAction {
    /// The number under which the action is stored.
    pub open spec fn code_of(self) -> u8 {
        match self {
            PropertyAction::Buy => 1,
            PropertyAction::Rent => 2,
        }
    }

    /// The number under which the action is stored: 1 to buy, 2 to rent.
    pub fn code(self) -> (code: u8)
        ensures
            code == self.code_of(),
    {
        match self {
            PropertyAction::Buy => 1,
            PropertyAction::Rent => 2,
        }
    }

    /// The name of the action in a search query.
    pub open spec fn channel_of(self) -> Seq<char> {
        match self {
            PropertyAction::Buy => "BUY"@,
            PropertyAction::Rent => "RENT"@,
        }
    }

    /// The name of the action in a search query.
    pub fn channel(self) -> (name: &'static str)
        ensures
            name@ == self.channel_of(),
    {
        match self {
            PropertyAction::Buy => "BUY",
            PropertyAction::Rent => "RENT",
        }
    }
}

/// A point on the map: longitude and latitude in degrees, each held as the
/// bits of an IEEE 754 double, which the library carries and never reads.
#[derive(Clone, Copy, Debug, PartialEq, Eq, Structural)]
pub struct Coordinates {
    pub longitude: u64,
    pub latitude: u64,
}

#[derive(Clone, Copy, Debug, PartialEq, Eq, Structural)]
pub struct PropertyStats {
    pub price: Stats,
    /// How long the adverts have been on the market, in whole days.
    pub listed_days: Stats,
    /// The share of adverts marked let agreed, sold subject to contract or
    /// under offer.
    pub percent_transacted: Stats,
    pub square_feet: Stats,
}

#[derive(Debug)]
pub struct PropertySummary {
    pub postcode: String,
    pub coordinates: Coordinates,
    pub action: u8,
    pub num_beds: u32,
    pub stats: PropertyStats,
}

} // verus!

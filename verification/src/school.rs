//! Schools and how they were rated.

use crate::dates::calendar_date_millis;
use crate::dates::parse_calendar_date;
use crate::error::Error;
use crate::property::Coordinates;
use crate::text::str_eq;
use vstd::prelude::*;

verus! {

/// Inspections are dated by day, month and year.
pub const INSPECTION_DATE_FORMAT: &'static str = "%d-%m-%Y";

#[derive(Debug)]
pub struct School {
    pub id: i64,
    pub name: String,
    pub postcode: String,
    pub coordinates: Coordinates,
    pub rating: u8,
    /// Midnight UTC of the day of the last inspection, in milliseconds
    /// since the epoch.
    pub inspection_date_ms: Option<i64>,
}

#[derive(Clone, Copy, Debug, PartialEq, Eq, Structural)]
pub enum Rating {
    Unknown,
    Outstanding,
    Good,
    RequiresImprovement,
    Inadequate,
}

impl Rating {
    /// The number under which the rating is stored.
    pub open spec fn code_of(self) -> u8 {
        match self {
            Rating::Unknown => 0,
            Rating::Outstanding => 1,
            Rating::Good => 2,
            Rating::RequiresImprovement => 3,
            Rating::Inadequate => 4,
        }
    }

    /// The rating that the words of an inspection report stand for.
    pub open spec fn of(words: Option<Seq<char>>) -> Rating {
        match words {
            None => Rating::Unknown,
            Some(w) => if w == "Outstanding"@ {
                Rating::Outstanding
            } else if w == "Good"@ {
                Rating::Good
            } else if w == "Requires improvement"@ {
                Rating::RequiresImprovement
            } else if w == "Special Measures"@ || w == "Serious Weaknesses"@ || w == "Inadequate"@ {
                Rating::Inadequate
            } else {
                Rating::Unknown
            },
        }
    }

    /// The number under which the rating is stored, from 0 for unknown to 4
    /// for inadequate.
    pub fn code(self) -> (code: u8)
        ensures
            code == self.code_of(),
    {
        match self {
            Rating::Unknown => 0,
            Rating::Outstanding => 1,
            Rating::Good => 2,
            Rating::RequiresImprovement => 3,
            Rating::Inadequate => 4,
        }
    }
}

/// The rating that the words of an inspection report stand for; unknown
/// where there are no words or other words.
pub fn parse_rating_string(rating_string: Option<&str>) -> (rating: Rating)
    ensures
        rating == Rating::of(
            match rating_string {
                Some(w) => Some(w@),
                None => None,
            },
        ),
{
    match rating_string {
        None => Rating::Unknown,
        Some(w) => {
            if str_eq(w, "Outstanding") {
                Rating::Outstanding
            } else if str_eq(w, "Good") {
                Rating::Good
            } else if str_eq(w, "Requires improvement") {
                Rating::RequiresImprovement
            } else if str_eq(w, "Special Measures") || str_eq(w, "Serious Weaknesses") || str_eq(w, "Inadequate") {
                Rating::Inadequate
            } else {
                Rating::Unknown
            }
        },
    }
}

/// The day of an inspection: none where none is given, and an error where
/// one is given that cannot be read.
pub open spec fn inspection_date_of(date_string: Option<Seq<char>>) -> Result<Option<i64>, Error> {
    match date_string {
        Some(text) => match calendar_date_millis(text, INSPECTION_DATE_FORMAT@) {
            Some(millis) => Ok(Some(millis as i64)),
            None => Err(Error::UnreadableDate),
        },
        None => Ok(None),
    }
}

/// The day of an inspection, if one is given, or `UnreadableDate`.
pub fn parse_inspection_date(date_string: Option<&str>) -> (r: Result<Option<i64>, Error>)
    ensures
        r == inspection_date_of(
            match date_string {
                Some(text) => Some(text@),
                None => None,
            },
        ),
{
    match date_string {
        Some(text) => match parse_calendar_date(text, INSPECTION_DATE_FORMAT) {
            Some(millis) => Ok(Some(millis)),
            None => Err(Error::UnreadableDate),
        },
        None => Ok(None),
    }
}

} // verus!

//! The stations around which properties are searched, and what the tables
//! of stations and lines say of them.

use crate::property::Coordinates;
use crate::text::chars_of;
use crate::text::parse_digits;
use crate::text::str_eq;
use crate::text::unsigned_decimal;
use vstd::prelude::*;

verus! {

#[derive(Debug)]
pub struct TubeStation {
    pub name: String,
    pub zone: Vec<u8>,
    pub postcode: String,
    pub coordinates: Coordinates,
    /// The lines that call at the station, each once.
    pub lines: Vec<String>,
}

/// One stretch of a line between two neighbouring stations.
#[derive(Debug)]
pub struct Connection {
    pub line: String,
    pub from_station: String,
    pub to_station: String,
}

/// The pieces of `text` between its commas: one more than it has commas.
pub open spec fn pieces_of(text: Seq<char>) -> Seq<Seq<char>>
    decreases text.len(),
{
    if text.len() == 0 {
        seq![Seq::empty()]
    } else {
        let before = pieces_of(text.drop_last());
        if text.last() == ',' {
            before.push(Seq::empty())
        } else {
            before.drop_last().push(before.last().push(text.last()))
        }
    }
}

/// The zone that a piece names: a decimal number of eight bits, which a `+`
/// may precede.
pub open spec fn zone_of(piece: Seq<char>) -> Option<u8> {
    let digits = if piece.len() > 0 && piece[0] == '+' {
        piece.skip(1)
    } else {
        piece
    };
    match unsigned_decimal(digits) {
        Some(v) => if v <= u8::MAX {
            Some(v as u8)
        } else {
            None
        },
        None => None,
    }
}

/// The zones that pieces name, in their order; a piece that names none is
/// left out.
pub open spec fn zones_in(pieces: Seq<Seq<char>>) -> Seq<u8>
    decreases pieces.len(),
{
    if pieces.len() == 0 {
        Seq::empty()
    } else {
        match zone_of(pieces.last()) {
            Some(zone) => zones_in(pieces.drop_last()).push(zone),
            None => zones_in(pieces.drop_last()),
        }
    }
}

/// Whether a stretch starts or ends at `station`.
pub open spec fn calls_at(connection: Connection, station: Seq<char>) -> bool {
    connection.from_station@ == station || connection.to_station@ == station
}

/// The names of the lines that call at `station`, each once, in the order
/// in which the stretches first name them.
pub open spec fn lines_at(station: Seq<char>, connections: Seq<Connection>) -> Seq<Seq<char>>
    decreases connections.len(),
{
    if connections.len() == 0 {
        Seq::empty()
    } else {
        let before = lines_at(station, connections.drop_last());
        let last = connections.last();
        if calls_at(last, station) && !before.contains(last.line@) {
            before.push(last.line@)
        } else {
            before
        }
    }
}

/// The characters of names.
pub open spec fn names_of(names: Seq<String>) -> Seq<Seq<char>> {
    Seq::new(names.len(), |i: int| names[i]@)
}

/// The zone that a piece names, if it names one.
pub fn parse_zone(piece: &Vec<char>) -> (zone: Option<u8>)
    ensures
        zone == zone_of(piece@),
{
    let from: usize = if piece.len() > 0 && piece[0] == '+' {
        1
    } else {
        0
    };
    assert(piece@.skip(0) =~= piece@);
    match parse_digits(piece, from, 255) {
        Some(v) => Some(v as u8),
        None => None,
    }
}

/// The zones of a station, as in `2,3`: the numbers between the commas.
pub fn parse_zones(zone: &str) -> (zones: Vec<u8>)
    ensures
        zones@ == zones_in(pieces_of(zone@)),
{
    let text = chars_of(zone);
    let mut zones: Vec<u8> = Vec::new();
    let mut piece: Vec<char> = Vec::new();
    let mut i: usize = 0;
    assert(text@.take(0) =~= Seq::<char>::empty());
    assert(pieces_of(text@.take(0)).drop_last() =~= Seq::<Seq<char>>::empty());
    while i < text.len()
        invariant
            i <= text.len(),
            pieces_of(text@.take(i as int)).len() > 0,
            piece@ == pieces_of(text@.take(i as int)).last(),
            zones@ == zones_in(pieces_of(text@.take(i as int)).drop_last()),
        decreases text.len() - i,
    {
        let ghost before = pieces_of(text@.take(i as int));
        let ghost after = pieces_of(text@.take(i + 1));
        assert(text@.take(i + 1).drop_last() =~= text@.take(i as int));
        if text[i] == ',' {
            match parse_zone(&piece) {
                Some(z) => {
                    zones.push(z);
                },
                None => {},
            }
            piece = Vec::new();
            assert(after.drop_last() =~= before);
            assert(before.drop_last().push(before.last()) =~= before);
        } else {
            piece.push(text[i]);
            assert(after.drop_last() =~= before.drop_last());
        }
        i += 1;
    }
    assert(text@.take(i as int) =~= text@);
    let ghost all = pieces_of(text@);
    assert(all.drop_last().push(all.last()) =~= all);
    match parse_zone(&piece) {
        Some(z) => {
            zones.push(z);
        },
        None => {},
    }
    zones
}

/// Whether `name` is one of `names`.
pub fn is_among(name: &str, names: &Vec<String>) -> (found: bool)
    ensures
        found == names_of(names@).contains(name@),
{
    let mut i: usize = 0;
    while i < names.len()
        invariant
            i <= names.len(),
            forall|k: int| 0 <= k < i ==> names[k]@ != name@,
        decreases names.len() - i,
    {
        if str_eq(names[i].as_str(), name) {
            assert(names_of(names@)[i as int] == name@);
            return true;
        }
        i += 1;
    }
    assert forall|k: int| 0 <= k < names_of(names@).len() implies names_of(names@)[k] != name@ by {
        assert(names[k]@ != name@);
    }
    false
}

/// The lines that call at `station`, each once, in the order in which the
/// stretches first name them.
pub fn lines_of(station: &str, connections: &Vec<Connection>) -> (lines: Vec<String>)
    ensures
        names_of(lines@) == lines_at(station@, connections@),
{
    let mut lines: Vec<String> = Vec::new();
    let mut i: usize = 0;
    assert(names_of(lines@) =~= Seq::<Seq<char>>::empty());
    while i < connections.len()
        invariant
            i <= connections.len(),
            names_of(lines@) == lines_at(station@, connections@.take(i as int)),
        decreases connections.len() - i,
    {
        assert(connections@.take(i + 1).drop_last() =~= connections@.take(i as int));
        let connection = &connections[i];
        if (str_eq(connection.from_station.as_str(), station) || str_eq(connection.to_station.as_str(), station))
            && !is_among(connection.line.as_str(), &lines) {
            let ghost before = names_of(lines@);
            lines.push(connection.line.clone());
            assert(names_of(lines@) =~= before.push(connection.line@));
        }
        i += 1;
    }
    assert(connections@.take(i as int) =~= connections@);
    lines
}

} // verus!

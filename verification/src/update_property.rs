//! One run from the stations to the stored summaries: which searches are
//! made, what is stored of each, and in which order the stages follow.

use crate::aggregator::PropertyAggregator;
use crate::error::Error;
use crate::property::PropertyAction;
use crate::property::PropertySummary;
use crate::rightmove::RightmoveProperty;
use crate::tube::TubeStation;
use vstd::prelude::*;

verus! {

/// Searches are made for no bedroom (a studio) up to this many.
pub const MAX_BEDS: u32 = 3;

/// Searches reach this many miles around a station.
pub const SEARCH_RADIUS: &'static str = "0.25";

/// How many searches are made for one station: to buy and to rent, for each
/// number of bedrooms.
pub const SEARCHES_PER_STATION: usize = 8;

/// A station and the identifier under which the search knows its place.
#[derive(Debug)]
pub struct StationInfo {
    pub station: TubeStation,
    pub location_identifier: String,
}

/// One search: around which of the resolved stations, to buy or to rent,
/// and for how many bedrooms.
#[derive(Clone, Copy, Debug, PartialEq, Eq, Structural)]
pub struct SearchTask {
    pub station: usize,
    pub action: PropertyAction,
    pub num_beds: u32,
}

/// The stations whose place was found, each with its identifier, in the
/// order of the lookups; a station whose lookup failed is left out.
pub open spec fn resolved_of(lookups: Seq<(TubeStation, Result<String, Error>)>) -> Seq<StationInfo>
    decreases lookups.len(),
{
    if lookups.len() == 0 {
        Seq::empty()
    } else {
        match lookups.last().1 {
            Ok(location_identifier) => resolved_of(lookups.drop_last()).push(
                StationInfo { station: lookups.last().0, location_identifier },
            ),
            Err(_) => resolved_of(lookups.drop_last()),
        }
    }
}

/// The `k`th search of a run: the stations one after the other, for each
/// the numbers of bedrooms from none up, for each of those to buy and then
/// to rent.
pub open spec fn task_of(k: int) -> SearchTask {
    SearchTask {
        station: (k / (SEARCHES_PER_STATION as int)) as usize,
        action: if k % 2 == 0 {
            PropertyAction::Buy
        } else {
            PropertyAction::Rent
        },
        num_beds: ((k % (SEARCHES_PER_STATION as int)) / 2) as u32,
    }
}

/// The searches of a run over `stations` stations.
pub open spec fn tasks_of(stations: nat) -> Seq<SearchTask> {
    Seq::new(stations * SEARCHES_PER_STATION as nat, |k: int| task_of(k))
}

/// The stations whose place was found, each with its identifier.
pub fn resolved(lookups: Vec<(TubeStation, Result<String, Error>)>) -> (infos: Vec<StationInfo>)
    ensures
        infos@ == resolved_of(lookups@),
{
    let ghost all = lookups@;
    let mut infos: Vec<StationInfo> = Vec::new();
    for lookup in it: lookups
        invariant
            it.seq() == all,
            infos@ == resolved_of(all.take(it.index() as int)),
    {
        assert(all.take(it.index() + 1).drop_last() =~= all.take(it.index() as int));
        let (station, found) = lookup;
        match found {
            Ok(location_identifier) => {
                infos.push(StationInfo { station, location_identifier });
            },
            Err(_) => {},
        }
    }
    assert(all.take(all.len() as int) =~= all);
    infos
}

/// The searches of a run over `stations` stations.
pub fn fan_out(stations: usize) -> (tasks: Vec<SearchTask>)
    ensures
        tasks@ == tasks_of(stations as nat),
{
    let mut tasks: Vec<SearchTask> = Vec::new();
    let mut station: usize = 0;
    while station < stations
        invariant
            station <= stations,
            tasks@ == tasks_of(station as nat),
        decreases stations - station,
    {
        let mut num_beds: u32 = 0;
        while num_beds <= MAX_BEDS
            invariant
                station < stations,
                num_beds <= MAX_BEDS + 1,
                tasks@ == Seq::new((station * 8 + num_beds * 2) as nat, |k: int| task_of(k)),
            decreases MAX_BEDS + 1 - num_beds,
        {
            tasks.push(SearchTask { station, action: PropertyAction::Buy, num_beds });
            tasks.push(SearchTask { station, action: PropertyAction::Rent, num_beds });
            num_beds += 1;
            assert(tasks@ =~= Seq::new((station * 8 + num_beds * 2) as nat, |k: int| task_of(k)));
        }
        station += 1;
        assert(tasks@ =~= tasks_of(station as nat));
    }
    tasks
}

/// What is stored of one search: where and for what it was made, and the
/// statistics of its adverts at the instant `now`.
pub fn summary(info: &StationInfo, task: SearchTask, properties: Vec<RightmoveProperty>, now: i64) -> (summary:
    PropertySummary)
    ensures
        summary.postcode@ == info.station.postcode@,
        summary.coordinates == info.station.coordinates,
        summary.action == task.action.code_of(),
        summary.num_beds == task.num_beds,
        summary.stats == PropertyAggregator::stats_of(properties@, now),
{
    PropertySummary {
        postcode: info.station.postcode.clone(),
        coordinates: info.station.coordinates,
        action: task.action.code(),
        num_beds: task.num_beds,
        stats: PropertyAggregator::calculate_stats(properties, now),
    }
}

/// The stages of a run.
#[derive(Clone, Copy, Debug, PartialEq, Eq, Structural)]
pub enum Stage {
    LoadReferenceLocations,
    ResolveLocations,
    FanOutSearches,
    Aggregate,
    CommitReplace,
    Done,
    Failed,
}

/// How the work of a stage ended.
#[derive(Clone, Copy, Debug, PartialEq, Eq, Structural)]
pub enum Event {
    Completed,
    /// It failed for good: a search that could not be read, a page that kept
    /// failing, a store that refused. A station whose place is not found is
    /// no such failure: the run goes on without it.
    Failed,
}

/// What a run does next.
#[derive(Clone, Copy, Debug, PartialEq, Eq, Structural)]
pub enum Action {
    ResolveLocations,
    RunSearches,
    Aggregate,
    /// Replace what is stored by the new summaries, all or nothing.
    Commit,
    Finish,
    /// Give up, and leave what is stored as it is.
    Abort,
    /// Nothing: the run is over.
    Rest,
}

impl Stage {
    /// The stage that follows when the work of this stage ended in `event`,
    /// and what the run does next: the stages follow one another while their
    /// work completes, and a failure ends the run, whatever the stage.
    pub open spec fn next_of(self, event: Event) -> (Stage, Action) {
        match (self, event) {
            (Stage::Done, _) => (Stage::Done, Action::Rest),
            (Stage::Failed, _) => (Stage::Failed, Action::Rest),
            (_, Event::Failed) => (Stage::Failed, Action::Abort),
            (Stage::LoadReferenceLocations, Event::Completed) => (
                Stage::ResolveLocations,
                Action::ResolveLocations,
            ),
            (Stage::ResolveLocations, Event::Completed) => (Stage::FanOutSearches, Action::RunSearches),
            (Stage::FanOutSearches, Event::Completed) => (Stage::Aggregate, Action::Aggregate),
            (Stage::Aggregate, Event::Completed) => (Stage::CommitReplace, Action::Commit),
            (Stage::CommitReplace, Event::Completed) => (Stage::Done, Action::Finish),
        }
    }

    /// The stage of a run after `events`, one for each stage that it went
    /// through.
    pub open spec fn after(events: Seq<Event>) -> Stage
        decreases events.len(),
    {
        if events.len() == 0 {
            Stage::LoadReferenceLocations
        } else {
            Stage::after(events.drop_last()).next_of(events.last()).0
        }
    }

    /// What a run does on the last of `events`.
    pub open spec fn action_after(events: Seq<Event>) -> Action
        recommends
            events.len() > 0,
    {
        Stage::after(events.drop_last()).next_of(events.last()).1
    }

    /// The stage at which a run starts.
    pub fn first() -> (stage: Stage)
        ensures
            stage == Stage::after(Seq::empty()),
    {
        Stage::LoadReferenceLocations
    }

    /// The stage that follows when the work of this stage ended in `event`,
    /// and what the run does next.
    pub fn next(self, event: Event) -> (r: (Stage, Action))
        ensures
            r == self.next_of(event),
    {
        match (self, event) {
            (Stage::Done, _) => (Stage::Done, Action::Rest),
            (Stage::Failed, _) => (Stage::Failed, Action::Rest),
            (_, Event::Failed) => (Stage::Failed, Action::Abort),
            (Stage::LoadReferenceLocations, Event::Completed) => (
                Stage::ResolveLocations,
                Action::ResolveLocations,
            ),
            (Stage::ResolveLocations, Event::Completed) => (Stage::FanOutSearches, Action::RunSearches),
            (Stage::FanOutSearches, Event::Completed) => (Stage::Aggregate, Action::Aggregate),
            (Stage::Aggregate, Event::Completed) => (Stage::CommitReplace, Action::Commit),
            (Stage::CommitReplace, Event::Completed) => (Stage::Done, Action::Finish),
        }
    }
}

/// A run that has failed stays failed.
pub proof fn lemma_failure_is_final(events: Seq<Event>, k: int)
    requires
        0 <= k < events.len(),
        events[k] == Event::Failed,
    ensures
        Stage::after(events) == Stage::Failed || Stage::after(events) == Stage::Done,
        Stage::after(events.take(k)) != Stage::Done ==> Stage::after(events) == Stage::Failed,
    decreases events.len(),
{
    if k == events.len() - 1 {
        assert(events.drop_last() =~= events.take(k));
    } else {
        lemma_failure_is_final(events.drop_last(), k);
        assert(events.drop_last().take(k) =~= events.take(k));
    }
}

/// A run commits only on its fourth event, and only when every stage before
/// has completed: the locations were loaded and resolved, and every search
/// was made and aggregated.
pub proof fn lemma_commit_follows_success(events: Seq<Event>)
    requires
        events.len() > 0,
        Stage::action_after(events) == Action::Commit,
    ensures
        events.len() == 4,
        forall|k: int| 0 <= k < events.len() ==> events[k] == Event::Completed,
{
    let a = events.drop_last();
    assert(Stage::after(a) == Stage::Aggregate);
    let b = a.drop_last();
    assert(a.len() > 0 && Stage::after(b) == Stage::FanOutSearches);
    let c = b.drop_last();
    assert(b.len() > 0 && Stage::after(c) == Stage::ResolveLocations);
    let d = c.drop_last();
    assert(c.len() > 0 && Stage::after(d) == Stage::LoadReferenceLocations);
    if d.len() > 0 {
        assert(Stage::after(d.drop_last()).next_of(d.last()).0 == Stage::LoadReferenceLocations);
    }
    assert(events[3] == events.last());
    assert(events[2] == a.last());
    assert(events[1] == b.last());
    assert(events[0] == c.last());
}

} // verus!

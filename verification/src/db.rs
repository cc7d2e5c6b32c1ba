//! Replacing everything that is stored, all or nothing.

use vstd::prelude::*;

verus! {

/// What is asked of the store.
#[derive(Clone, Copy, Debug, PartialEq, Eq, Structural)]
pub enum Write {
    /// Start a transaction.
    Begin,
    /// Delete all items, within the transaction.
    DeleteAll,
    /// Insert the new items, within the transaction.
    InsertAll,
    /// Set the time of the last update, within the transaction.
    TouchLastUpdated,
    /// Let the transaction take effect.
    Commit,
    /// Drop the transaction.
    Abort,
    /// Nothing: the replacement is over.
    Rest,
}

/// How far a replacement has come; all but the last two name the write
/// whose outcome is awaited.
#[derive(Clone, Copy, Debug, PartialEq, Eq, Structural)]
pub enum Progress {
    Beginning,
    Deleting,
    Inserting,
    Touching,
    Committing,
    Aborting,
    Committed,
    Aborted,
}

impl Progress {
    /// The write whose outcome is awaited.
    pub open spec fn awaited(self) -> Write {
        match self {
            Progress::Beginning => Write::Begin,
            Progress::Deleting => Write::DeleteAll,
            Progress::Inserting => Write::InsertAll,
            Progress::Touching => Write::TouchLastUpdated,
            Progress::Committing => Write::Commit,
            Progress::Aborting => Write::Abort,
            Progress::Committed => Write::Rest,
            Progress::Aborted => Write::Rest,
        }
    }

    /// How far the replacement is once the awaited write has landed or
    /// failed: the writes follow one another while they land, and the first
    /// that fails is followed by dropping the transaction.
    pub open spec fn next_of(self, landed: bool) -> Progress {
        match self {
            Progress::Committed => Progress::Committed,
            Progress::Aborted => Progress::Aborted,
            Progress::Aborting => Progress::Aborted,
            _ => if !landed {
                Progress::Aborting
            } else {
                match self {
                    Progress::Beginning => Progress::Deleting,
                    Progress::Deleting => Progress::Inserting,
                    Progress::Inserting => Progress::Touching,
                    Progress::Touching => Progress::Committing,
                    _ => Progress::Committed,
                }
            },
        }
    }

    /// A replacement starts by starting a transaction.
    pub fn start() -> (r: (Progress, Write))
        ensures
            r.0 == Progress::Beginning,
            r.1 == r.0.awaited(),
    {
        (Progress::Beginning, Write::Begin)
    }

    /// Takes note of whether the awaited write landed, and says how far the
    /// replacement is and what is asked of the store next.
    pub fn next(self, landed: bool) -> (r: (Progress, Write))
        ensures
            r.0 == self.next_of(landed),
            r.1 == r.0.awaited(),
    {
        let progress = match self {
            Progress::Committed => Progress::Committed,
            Progress::Aborted => Progress::Aborted,
            Progress::Aborting => Progress::Aborted,
            Progress::Beginning => if landed {
                Progress::Deleting
            } else {
                Progress::Aborting
            },
            Progress::Deleting => if landed {
                Progress::Inserting
            } else {
                Progress::Aborting
            },
            Progress::Inserting => if landed {
                Progress::Touching
            } else {
                Progress::Aborting
            },
            Progress::Touching => if landed {
                Progress::Committing
            } else {
                Progress::Aborting
            },
            Progress::Committing => if landed {
                Progress::Committed
            } else {
                Progress::Aborting
            },
        };
        let write = match progress {
            Progress::Beginning => Write::Begin,
            Progress::Deleting => Write::DeleteAll,
            Progress::Inserting => Write::InsertAll,
            Progress::Touching => Write::TouchLastUpdated,
            Progress::Committing => Write::Commit,
            Progress::Aborting => Write::Abort,
            Progress::Committed => Write::Rest,
            Progress::Aborted => Write::Rest,
        };
        (progress, write)
    }
}

/// The items of a store and the time of their last update.
pub struct Contents<A> {
    pub items: Seq<A>,
    pub last_updated: Option<int>,
}

/// A store with transactions: what its readers see, and what an open
/// transaction holds.
pub struct Store<A> {
    pub visible: Contents<A>,
    pub staged: Option<Contents<A>>,
}

/// The store after a write. A write that lands changes what the open
/// transaction holds, and only a commit changes what readers see. A write
/// that fails may leave anything, `wreck`, in the transaction, and leaves
/// what readers see as it is.
pub open spec fn written<A>(
    store: Store<A>,
    write: Write,
    landed: bool,
    items: Seq<A>,
    now: int,
    wreck: Option<Contents<A>>,
) -> Store<A> {
    if write == Write::Rest {
        store
    } else if write == Write::Abort {
        Store { staged: None, ..store }
    } else if !landed {
        Store { staged: wreck, ..store }
    } else {
        match (write, store.staged) {
            (Write::Begin, _) => Store { staged: Some(store.visible), ..store },
            (Write::DeleteAll, Some(held)) => Store {
                staged: Some(Contents { items: Seq::empty(), ..held }),
                ..store
            },
            (Write::InsertAll, Some(held)) => Store {
                staged: Some(Contents { items: held.items + items, ..held }),
                ..store
            },
            (Write::TouchLastUpdated, Some(held)) => Store {
                staged: Some(Contents { last_updated: Some(now), ..held }),
                ..store
            },
            (Write::Commit, Some(held)) => Store { visible: held, staged: None },
            _ => store,
        }
    }
}

/// How far a replacement is, and the store, once the writes of the
/// replacement have landed or failed as `outcomes` say, one after the other.
pub open spec fn replaced<A>(
    outcomes: Seq<bool>,
    before: Contents<A>,
    items: Seq<A>,
    now: int,
    wreck: Option<Contents<A>>,
) -> (Progress, Store<A>)
    decreases outcomes.len(),
{
    if outcomes.len() == 0 {
        (Progress::Beginning, Store { visible: before, staged: None })
    } else {
        let (progress, store) = replaced(outcomes.drop_last(), before, items, now, wreck);
        (progress.next_of(outcomes.last()), written(store, progress.awaited(), outcomes.last(), items, now, wreck))
    }
}

/// Whatever lands and whatever fails, readers see all of the old contents
/// until the replacement is committed, and from then on all of the new
/// items with the new time: never nothing, and never a part.
pub proof fn lemma_replacement_is_atomic<A>(
    outcomes: Seq<bool>,
    before: Contents<A>,
    items: Seq<A>,
    now: int,
    wreck: Option<Contents<A>>,
)
    ensures
        ({
            let (progress, store) = replaced(outcomes, before, items, now, wreck);
            let renewed = Contents { items, last_updated: Some(now) };
            &&& progress == Progress::Committed ==> store.visible == renewed
            &&& progress != Progress::Committed ==> store.visible == before
            &&& progress == Progress::Committed <==> outcomes.len() >= 5 && forall|k: int|
                0 <= k < 5 ==> outcomes[k]
        }),
{
    lemma_replacement_steps(outcomes, before, items, now, wreck);
}

/// What an open transaction holds at each step of a replacement.
proof fn lemma_replacement_steps<A>(
    outcomes: Seq<bool>,
    before: Contents<A>,
    items: Seq<A>,
    now: int,
    wreck: Option<Contents<A>>,
)
    ensures
        ({
            let (progress, store) = replaced(outcomes, before, items, now, wreck);
            let renewed = Contents { items, last_updated: Some(now) };
            let landed = |n: int| outcomes.len() == n && forall|k: int| 0 <= k < n ==> outcomes[k];
            match progress {
                Progress::Beginning => landed(0) && store.visible == before,
                Progress::Deleting => landed(1) && store.visible == before && store.staged == Some(before),
                Progress::Inserting => landed(2) && store.visible == before && store.staged == Some(
                    Contents { items: Seq::<A>::empty(), last_updated: before.last_updated },
                ),
                Progress::Touching => landed(3) && store.visible == before && store.staged == Some(
                    Contents { items: items, last_updated: before.last_updated },
                ),
                Progress::Committing => landed(4) && store.visible == before && store.staged == Some(renewed),
                Progress::Committed => store.visible == renewed && outcomes.len() >= 5 && forall|k: int|
                    0 <= k < 5 ==> outcomes[k],
                _ => store.visible == before && exists|k: int| 0 <= k < 5 && k < outcomes.len() && !outcomes[k],
            }
        }),
    decreases outcomes.len(),
{
    if outcomes.len() > 0 {
        let earlier = outcomes.drop_last();
        lemma_replacement_steps(earlier, before, items, now, wreck);
        let (progress, store) = replaced(earlier, before, items, now, wreck);
        assert forall|k: int| 0 <= k < earlier.len() implies earlier[k] == outcomes[k] by {}
        assert(Seq::<A>::empty() + items =~= items);
        match progress {
            Progress::Beginning | Progress::Deleting | Progress::Inserting | Progress::Touching
            | Progress::Committing => {
                if !outcomes.last() {
                    assert(!outcomes[outcomes.len() - 1]);
                }
            },
            Progress::Committed => {},
            _ => {
                let k = choose|k: int| 0 <= k < 5 && k < earlier.len() && !earlier[k];
                assert(!outcomes[k]);
            },
        }
    }
}

} // verus!

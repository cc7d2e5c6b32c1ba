//! What a list of outcomes holds when all of them are successes.

use vstd::prelude::*;

verus! {

/// The values of outcomes that are all successes, in their order.
pub open spec fn values_of<T, E>(results: Seq<Result<T, E>>) -> Seq<T> {
    Seq::new(results.len(), |i: int| results[i]->Ok_0)
}

pub open spec fn all_ok<T, E>(results: Seq<Result<T, E>>) -> bool {
    forall|i: int| 0 <= i < results.len() ==> (#[trigger] results[i]) is Ok
}

pub trait VecResultExt<T>: Sized {
    /// Every outcome is a success.
    spec fn succeeded(self) -> bool;

    /// The values of the outcomes.
    spec fn values(self) -> Seq<T>;

    /// The values of outcomes that are all successes.
    fn unwrap_all(self) -> (values: Vec<T>)
        requires
            self.succeeded(),
        ensures
            values@ == self.values(),
    ;
}

impl<T, E> VecResultExt<T> for Vec<Result<T, E>> {
    open spec fn succeeded(self) -> bool {
        all_ok(self@)
    }

    open spec fn values(self) -> Seq<T> {
        values_of(self@)
    }

    fn unwrap_all(self) -> (values: Vec<T>) {
        let ghost all = self@;
        let mut values: Vec<T> = Vec::new();
        for result in it: self
            invariant
                it.seq() == all,
                all_ok(all),
                values@ == values_of(all).take(it.index() as int),
        {
            assert(all[it.index() as int] is Ok);
            values.push(result.ok().unwrap());
            assert(values@ =~= values_of(all).take(it.index() + 1));
        }
        assert(values_of(all).take(all.len() as int) =~= values_of(all));
        values
    }
}

} // verus!

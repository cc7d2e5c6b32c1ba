//! A counting limit on the requests that are in flight at once.

use vstd::prelude::*;

verus! {

/// What a request does at a limit.
#[derive(Clone, Copy, Debug, PartialEq, Eq, Structural)]
pub enum Passage {
    /// Asks for a slot.
    Acquire,
    /// Hands its slot back.
    Release,
}

/// The requests in flight after one passage: a request is let in while a
/// slot is free, and a release frees a slot that was taken.
pub open spec fn after(capacity: nat, in_flight: nat, passage: Passage) -> nat {
    match passage {
        Passage::Acquire => if in_flight < capacity {
            in_flight + 1
        } else {
            in_flight
        },
        Passage::Release => if in_flight > 0 {
            (in_flight - 1) as nat
        } else {
            0
        },
    }
}

/// The requests in flight after a run of passages, with none in flight
/// before it.
pub open spec fn after_all(capacity: nat, passages: Seq<Passage>) -> nat
    decreases passages.len(),
{
    if passages.len() == 0 {
        0
    } else {
        after(capacity, after_all(capacity, passages.drop_last()), passages.last())
    }
}

/// Whatever the requests do, no more of them are in flight than there are
/// slots.
pub proof fn lemma_never_over_capacity(capacity: nat, passages: Seq<Passage>)
    ensures
        after_all(capacity, passages) <= capacity,
    decreases passages.len(),
{
    if passages.len() > 0 {
        lemma_never_over_capacity(capacity, passages.drop_last());
    }
}

/// A counting gate with a fixed number of slots.
#[derive(Debug)]
pub struct ConcurrencyGate {
    capacity: usize,
    in_flight: usize,
}

impl ConcurrencyGate {
    #[verifier::type_invariant]
    spec fn within_capacity(self) -> bool {
        self.in_flight <= self.capacity
    }

    /// The number of slots.
    pub closed spec fn slots(self) -> nat {
        self.capacity as nat
    }

    /// The number of slots that are taken.
    pub closed spec fn taken(self) -> nat {
        self.in_flight as nat
    }

    /// An idle gate with `capacity` slots.
    pub fn new(capacity: usize) -> (gate: ConcurrencyGate)
        ensures
            gate.slots() == capacity,
            gate.taken() == 0,
    {
        ConcurrencyGate { capacity, in_flight: 0 }
    }

    pub fn capacity(&self) -> (capacity: usize)
        ensures
            capacity == self.slots(),
    {
        self.capacity
    }

    /// The number of requests in flight, never more than the capacity.
    pub fn in_flight(&self) -> (in_flight: usize)
        ensures
            in_flight == self.taken(),
            in_flight <= self.slots(),
    {
        proof {
            use_type_invariant(self);
        }
        self.in_flight
    }

    /// Takes a slot if one is free, and says whether it did.
    pub fn try_acquire(&mut self) -> (admitted: bool)
        ensures
            admitted == (old(self).taken() < old(self).slots()),
            final(self).slots() == old(self).slots(),
            final(self).taken() == after(old(self).slots(), old(self).taken(), Passage::Acquire),
            final(self).taken() <= final(self).slots(),
    {
        proof {
            use_type_invariant(&*self);
        }
        if self.in_flight < self.capacity {
            self.in_flight = self.in_flight + 1;
            true
        } else {
            false
        }
    }

    /// Frees a slot if one is taken, and says whether it did.
    pub fn release(&mut self) -> (released: bool)
        ensures
            released == (old(self).taken() > 0),
            final(self).slots() == old(self).slots(),
            final(self).taken() == after(old(self).slots(), old(self).taken(), Passage::Release),
            final(self).taken() <= final(self).slots(),
    {
        proof {
            use_type_invariant(&*self);
        }
        if self.in_flight > 0 {
            self.in_flight = self.in_flight - 1;
            true
        } else {
            false
        }
    }
}

} // verus!

//! When a failed attempt is made again, and after how long.

use vstd::arithmetic::power2::lemma_pow2_pos;
use vstd::arithmetic::power2::lemma_pow2_unfold;
use vstd::arithmetic::power2::pow2;
use vstd::prelude::*;

verus! {

/// How the pause before a retry grows with the retries already made.
#[derive(Clone, Copy, Debug, PartialEq, Eq, Structural)]
pub enum Backoff {
    /// Every pause has the base length.
    Fixed,
    /// Each pause is twice as long as the one before it.
    Exponential,
}

/// How an attempt ended.
#[derive(Clone, Copy, Debug, PartialEq, Eq, Structural)]
pub enum Outcome {
    Success,
    /// A failure that another attempt may mend.
    Transient,
    /// A failure that no other attempt will mend.
    Fatal,
}

/// What follows an attempt.
#[derive(Clone, Copy, Debug, PartialEq, Eq, Structural)]
pub enum Decision {
    /// The attempt succeeded.
    Done,
    /// Another attempt is due after a pause.
    Retry { delay_millis: u64 },
    /// The attempt failed and no retry is left.
    Exhausted,
    /// The attempt failed for good.
    Failed,
}

#[derive(Clone, Copy, Debug, PartialEq, Eq, Structural)]
pub struct RetryPolicy {
    /// How many attempts may follow the first one.
    pub max_retries: u32,
    pub base_delay_millis: u64,
    pub backoff: Backoff,
}

/// The retries made so far for one piece of work.
#[derive(Clone, Copy, Debug, PartialEq, Eq, Structural)]
pub struct Attempts {
    pub retries: u32,
}

impl Attempts {
    pub fn new() -> (attempts: Attempts)
        ensures
            attempts.retries == 0,
    {
        Attempts { retries: 0 }
    }
}

impl RetryPolicy {
    /// The pause before the retry that follows `retries` earlier ones: the
    /// base, doubled once for each earlier retry where the pauses grow, and
    /// never more than 64 bits hold.
    pub open spec fn delay_of(self, retries: u32) -> u64 {
        match self.backoff {
            Backoff::Fixed => self.base_delay_millis,
            Backoff::Exponential => if self.base_delay_millis * pow2(retries as nat) <= u64::MAX {
                (self.base_delay_millis * pow2(retries as nat)) as u64
            } else {
                u64::MAX
            },
        }
    }

    /// What follows an attempt that ended in `outcome` after `retries`
    /// retries: only a transient failure is tried again, and only while
    /// retries are left.
    pub open spec fn decision_of(self, retries: u32, outcome: Outcome) -> Decision {
        match outcome {
            Outcome::Success => Decision::Done,
            Outcome::Fatal => Decision::Failed,
            Outcome::Transient => if retries < self.max_retries {
                Decision::Retry { delay_millis: self.delay_of(retries) }
            } else {
                Decision::Exhausted
            },
        }
    }

    /// What the attempts of one piece of work come to when they end, one
    /// after the other, in `outcomes`: what follows the first attempt that is
    /// not tried again, or `None` while all were.
    pub open spec fn conclusion_of(self, retries: u32, outcomes: Seq<Outcome>) -> Option<Decision>
        decreases outcomes.len(),
    {
        if outcomes.len() == 0 {
            None
        } else {
            let decision = self.decision_of(retries, outcomes[0]);
            if decision is Retry {
                self.conclusion_of((retries + 1) as u32, outcomes.skip(1))
            } else {
                Some(decision)
            }
        }
    }

    /// The pause before the retry that follows `retries` earlier ones.
    pub fn delay(&self, retries: u32) -> (millis: u64)
        ensures
            millis == self.delay_of(retries),
    {
        match self.backoff {
            Backoff::Fixed => self.base_delay_millis,
            Backoff::Exponential => {
                let base = self.base_delay_millis;
                let mut millis: u64 = base;
                let mut doubled: u32 = 0;
                proof {
                    assert(pow2(0) == 1) by {
                        vstd::arithmetic::power2::lemma2_to64();
                    }
                }
                while doubled < retries
                    invariant
                        doubled <= retries,
                        base == self.base_delay_millis,
                        base * pow2(doubled as nat) <= u64::MAX ==> millis == base * pow2(doubled as nat),
                        base * pow2(doubled as nat) > u64::MAX ==> millis == u64::MAX,
                    decreases retries - doubled,
                {
                    proof {
                        lemma_pow2_unfold((doubled + 1) as nat);
                        lemma_pow2_pos(doubled as nat);
                        let p = pow2(doubled as nat) as int;
                        assert(base * (2 * p) == 2 * (base * p)) by (nonlinear_arith);
                    }
                    if millis > u64::MAX / 2 {
                        millis = u64::MAX;
                    } else {
                        millis = 2 * millis;
                    }
                    doubled += 1;
                }
                millis
            },
        }
    }

    /// Takes note of how an attempt ended and says what follows: a retry is
    /// counted, and nothing else changes the count.
    pub fn decide(&self, attempts: &mut Attempts, outcome: Outcome) -> (decision: Decision)
        ensures
            decision == self.decision_of(old(attempts).retries, outcome),
            decision is Retry ==> final(attempts).retries == old(attempts).retries + 1,
            !(decision is Retry) ==> *final(attempts) == *old(attempts),
    {
        match outcome {
            Outcome::Success => Decision::Done,
            Outcome::Fatal => Decision::Failed,
            Outcome::Transient => {
                if attempts.retries < self.max_retries {
                    let delay_millis = self.delay(attempts.retries);
                    attempts.retries = attempts.retries + 1;
                    Decision::Retry { delay_millis }
                } else {
                    Decision::Exhausted
                }
            },
        }
    }
}

/// `failures` transient failures, then a success.
pub open spec fn fails_then_succeeds(failures: nat) -> Seq<Outcome> {
    Seq::new(failures + 1, |i: int| if i < failures { Outcome::Transient } else { Outcome::Success })
}

/// Work that fails transiently `failures` times and then succeeds is done
/// when the policy allows as many retries, and is given up as exhausted when
/// it allows fewer.
pub proof fn lemma_fails_then_succeeds(policy: RetryPolicy, failures: nat)
    ensures
        policy.conclusion_of(0, fails_then_succeeds(failures)) == Some(
            if failures <= policy.max_retries {
                Decision::Done
            } else {
                Decision::Exhausted
            },
        ),
{
    lemma_conclusion_from(policy, 0, failures);
}

proof fn lemma_conclusion_from(policy: RetryPolicy, retries: u32, failures: nat)
    requires
        retries <= policy.max_retries,
    ensures
        policy.conclusion_of(retries, fails_then_succeeds(failures)) == Some(
            if retries + failures <= policy.max_retries {
                Decision::Done
            } else {
                Decision::Exhausted
            },
        ),
    decreases failures,
{
    let outcomes = fails_then_succeeds(failures);
    if failures > 0 && retries < policy.max_retries {
        assert(outcomes.skip(1) =~= fails_then_succeeds((failures - 1) as nat));
        lemma_conclusion_from(policy, (retries + 1) as u32, (failures - 1) as nat);
    }
}

/// A failure for good ends the work at once, whatever retries are left, and
/// costs none of them.
pub proof fn lemma_fatal_ends_at_once(policy: RetryPolicy, retries: u32, rest: Seq<Outcome>)
    ensures
        policy.conclusion_of(retries, seq![Outcome::Fatal] + rest) == Some(Decision::Failed),
{
}

} // verus!

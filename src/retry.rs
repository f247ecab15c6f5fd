use vstd::prelude::*;

verus! {

/// The number of tries that a budget of `max_attempts` allows: the first
/// try is always made.
pub open spec fn allowed_attempts(max_attempts: nat) -> nat {
    if max_attempts == 0 {
        1
    } else {
        max_attempts
    }
}

/// Counts the tries of an operation against a budget that includes the
/// first try.
pub struct RetryPolicy {
    max_attempts: usize,
    attempts_made: usize,
}

impl RetryPolicy {
    pub closed spec fn max_attempts(&self) -> nat {
        self.max_attempts as nat
    }

    pub closed spec fn attempts_made(&self) -> nat {
        self.attempts_made as nat
    }

    pub open spec fn wf(&self) -> bool {
        self.attempts_made() <= allowed_attempts(self.max_attempts())
    }

    /// Whether another try may start.
    pub fn can_attempt(&self) -> (r: bool)
        ensures
            r == (self.attempts_made() < allowed_attempts(self.max_attempts())),
    {
        self.attempts_made < self.max_attempts || (self.max_attempts == 0 && self.attempts_made
            == 0)
    }

    /// Starts the first try of an operation with a budget of `max_attempts`.
    pub fn start(max_attempts: usize) -> (r: Self)
        ensures
            r.wf(),
            r.max_attempts() == max_attempts,
            r.attempts_made() == 1,
    {
        RetryPolicy { max_attempts, attempts_made: 1 }
    }

    /// Decides, after a try, whether another one starts: only after a failure
    /// and while the budget allows; where it does, the new try is counted.
    pub fn retry_after(&mut self, succeeded: bool) -> (r: bool)
        requires
            old(self).wf(),
        ensures
            final(self).wf(),
            r == retry_decision(old(self).attempts_made(), old(self).max_attempts(), succeeded),
            final(self).max_attempts() == old(self).max_attempts(),
            r ==> final(self).attempts_made() == old(self).attempts_made() + 1,
            !r ==> final(self).attempts_made() == old(self).attempts_made(),
    {
        if !succeeded && self.can_attempt() {
            self.attempts_made = self.attempts_made + 1;
            true
        } else {
            false
        }
    }

    pub fn attempts_made_count(&self) -> (r: usize)
        ensures
            r == self.attempts_made(),
    {
        self.attempts_made
    }
}

/// Whether a loop that has made `made` tries tries again after one that
/// succeeded or not.
pub open spec fn retry_decision(made: nat, max_attempts: nat, succeeded: bool) -> bool {
    !succeeded && made < allowed_attempts(max_attempts)
}

/// The number of tries that a retry loop makes against a budget of
/// `max_attempts`, `made` tries in, where `outcomes` says whether each try
/// from here on succeeds: a try is made; it ends the loop where it succeeds
/// or the budget is spent, else the loop goes on.
pub open spec fn attempts_of_run(max_attempts: nat, outcomes: Seq<bool>, made: nat) -> nat
    decreases outcomes.len(),
{
    let now = made + 1;
    if outcomes.len() == 0 || !retry_decision(now, max_attempts, outcomes[0]) {
        now
    } else {
        attempts_of_run(max_attempts, outcomes.drop_first(), now)
    }
}

proof fn lemma_attempts_from(max_attempts: nat, outcomes: Seq<bool>, made: nat)
    requires
        made < allowed_attempts(max_attempts),
    ensures
        made + 1 <= attempts_of_run(max_attempts, outcomes, made) <= allowed_attempts(
            max_attempts,
        ),
        (forall|i: int| 0 <= i < outcomes.len() ==> !#[trigger] outcomes[i]) && made
            + outcomes.len() >= allowed_attempts(max_attempts) ==> attempts_of_run(
            max_attempts,
            outcomes,
            made,
        ) == allowed_attempts(max_attempts),
    decreases outcomes.len(),
{
    let now = made + 1;
    if !(outcomes.len() == 0 || !retry_decision(now, max_attempts, outcomes[0])) {
        lemma_attempts_from(max_attempts, outcomes.drop_first(), now);
        if forall|i: int| 0 <= i < outcomes.len() ==> !#[trigger] outcomes[i] {
            assert forall|i: int| 0 <= i < outcomes.drop_first().len() implies !#[trigger] outcomes.drop_first()[i] by {
                assert(!outcomes[i + 1]);
            }
        }
    }
}

/// A retry loop with a budget of `n` tries runs the operation at least once
/// and at most `max(n, 1)` times, whatever the tries return; where every try
/// fails it runs exactly `max(n, 1)` times.
pub proof fn lemma_retry_attempts_bounded(n: nat, outcomes: Seq<bool>)
    ensures
        1 <= attempts_of_run(n, outcomes, 0) <= allowed_attempts(n),
        (forall|i: int| 0 <= i < outcomes.len() ==> !#[trigger] outcomes[i]) && outcomes.len()
            >= allowed_attempts(n) ==> attempts_of_run(n, outcomes, 0) == allowed_attempts(n),
{
    lemma_attempts_from(n, outcomes, 0);
}

} // verus!

use vstd::prelude::*;

use crate::data::PartitionId;

verus! {

/// Why an outcome could not be recorded.
#[derive(Clone, Copy, Debug, PartialEq, Eq, Structural)]
pub enum SinkError {
    /// Every attempt allowed by the retry policy failed.
    GaveUp { attempts: u32 },
}

/// Records that a partition's compaction job concluded, with its outcome.
pub trait PartitionDoneSink {
    /// The outcomes recorded so far: the partition, and whether its job succeeded.
    spec fn recorded(&self) -> Seq<(PartitionId, bool)>;

    /// Records one outcome, retrying transient failures itself; on failure
    /// nothing is recorded.
    fn record(&mut self, partition: PartitionId, res: Result<(), String>) -> (r: Result<
        (),
        SinkError,
    >)
        ensures
            r is Ok ==> final(self).recorded() == old(self).recorded().push(
                (partition, res is Ok),
            ),
            r is Err ==> final(self).recorded() == old(self).recorded(),
    ;
}

/// A store failed to take an outcome this time.
#[derive(Clone, Copy, Debug, PartialEq, Eq, Structural)]
pub struct StoreUnavailable {}

/// Durable storage of job outcomes, which may fail transiently.
pub trait OutcomeStore {
    /// The outcomes stored so far.
    spec fn outcomes(&self) -> Seq<(PartitionId, bool)>;

    /// Of the next `n` attempts to store, one is sure to succeed. A store that
    /// promises nothing leaves this false.
    spec fn accepts_within(&self, n: nat) -> bool;

    /// Each of the next `n` attempts to store is sure to fail. A store that
    /// promises nothing leaves this false.
    spec fn fails_next(&self, n: nat) -> bool;

    /// The number of attempts to store made so far.
    spec fn attempts(&self) -> nat;

    fn try_record(&mut self, partition: PartitionId, success: bool) -> (r: Result<
        (),
        StoreUnavailable,
    >)
        ensures
            r is Ok ==> final(self).outcomes() == old(self).outcomes().push((partition, success)),
            r is Err ==> final(self).outcomes() == old(self).outcomes(),
            forall|n: nat|
                #[trigger] old(self).accepts_within(n + 1) ==> r is Ok || (n > 0 && final(self).accepts_within(n)),
            forall|n: nat|
                #[trigger] old(self).fails_next(n + 1) ==> r is Err && final(self).fails_next(n),
            final(self).attempts() == old(self).attempts() + 1,
    ;

    /// Waits `millis` milliseconds before the next attempt.
    fn pause(&mut self, millis: u64)
        ensures
            final(self).outcomes() == old(self).outcomes(),
            forall|n: nat| #[trigger] old(self).accepts_within(n) ==> final(self).accepts_within(n),
            forall|n: nat| #[trigger] old(self).fails_next(n) ==> final(self).fails_next(n),
            final(self).attempts() == old(self).attempts(),
    ;
}

/// What to do after an attempt to record.
#[derive(Clone, Copy, Debug, PartialEq, Eq, Structural)]
pub enum RetryStep {
    /// The attempt succeeded.
    Done,
    /// Wait this many milliseconds, then try again.
    Wait(u64),
    /// No attempt is left.
    GiveUp,
}

/// Bounded exponential backoff.
#[derive(Clone, Copy, Debug, PartialEq, Eq, Structural)]
pub struct RetryPolicy {
    /// The largest number of attempts; one attempt is always made.
    pub max_attempts: u32,
    /// The wait after the first failed attempt.
    pub initial_backoff_ms: u64,
    /// No wait is longer than this.
    pub max_backoff_ms: u64,
}

/// The wait after failed attempt number `attempt` (from zero): the initial wait
/// doubled once per earlier failure, capped at `max`.
pub open spec fn backoff(initial: u64, max: u64, attempt: nat) -> u64
    decreases attempt,
{
    if attempt == 0 {
        if initial <= max {
            initial
        } else {
            max
        }
    } else {
        let prev = backoff(initial, max, (attempt - 1) as nat);
        if prev as int * 2 <= max as int {
            (prev * 2) as u64
        } else {
            max
        }
    }
}

impl RetryPolicy {
    pub fn new(max_attempts: u32, initial_backoff_ms: u64, max_backoff_ms: u64) -> (r: RetryPolicy)
        ensures
            r.max_attempts == max_attempts,
            r.initial_backoff_ms == initial_backoff_ms,
            r.max_backoff_ms == max_backoff_ms,
    {
        RetryPolicy { max_attempts, initial_backoff_ms, max_backoff_ms }
    }

    /// The number of attempts actually made at most.
    pub open spec fn budget(self) -> nat {
        if self.max_attempts == 0 {
            1
        } else {
            self.max_attempts as nat
        }
    }

    pub fn backoff_ms(&self, attempt: u32) -> (r: u64)
        ensures
            r == backoff(self.initial_backoff_ms, self.max_backoff_ms, attempt as nat),
    {
        let mut wait: u64 = if self.initial_backoff_ms <= self.max_backoff_ms {
            self.initial_backoff_ms
        } else {
            self.max_backoff_ms
        };
        let mut k: u32 = 0;
        while k < attempt
            invariant
                k <= attempt,
                wait == backoff(self.initial_backoff_ms, self.max_backoff_ms, k as nat),
            decreases attempt - k,
        {
            wait = if wait <= self.max_backoff_ms / 2 {
                wait * 2
            } else {
                self.max_backoff_ms
            };
            k += 1;
        }
        wait
    }

    /// The step after attempt number `attempt` (from zero) ended with `succeeded`.
    pub fn next_step(&self, attempt: u32, succeeded: bool) -> (r: RetryStep)
        ensures
            succeeded ==> r == RetryStep::Done,
            !succeeded && attempt + 1 >= self.budget() ==> r == RetryStep::GiveUp,
            !succeeded && attempt + 1 < self.budget() ==> r == RetryStep::Wait(
                backoff(self.initial_backoff_ms, self.max_backoff_ms, attempt as nat),
            ),
    {
        if succeeded {
            RetryStep::Done
        } else if attempt as u64 + 1 >= self.max_attempts as u64 {
            RetryStep::GiveUp
        } else {
            RetryStep::Wait(self.backoff_ms(attempt))
        }
    }
}

/// A sink that stores each outcome, retrying a failed attempt after a wait
/// until the policy's attempts are spent.
#[derive(Debug)]
pub struct RetryingSink<S: OutcomeStore> {
    store: S,
    policy: RetryPolicy,
}

impl<S: OutcomeStore> RetryingSink<S> {
    pub closed spec fn store_view(&self) -> S {
        self.store
    }

    pub closed spec fn policy_view(&self) -> RetryPolicy {
        self.policy
    }

    pub fn new(store: S, policy: RetryPolicy) -> (r: RetryingSink<S>)
        ensures
            r.store_view() == store,
            r.policy_view() == policy,
    {
        RetryingSink { store, policy }
    }

    /// The underlying store.
    pub fn store(&self) -> (r: &S)
        ensures
            *r == self.store_view(),
    {
        &self.store
    }

    /// Stores the outcome of `partition`'s job, with up to the policy's number
    /// of attempts, stopping at the first that succeeds. Where the store is
    /// sure to take it within that many attempts, this succeeds; where it is
    /// sure to refuse them all, this fails, and a failure comes only once every
    /// attempt was made.
    pub fn record_outcome(&mut self, partition: PartitionId, success: bool) -> (r: Result<
        (),
        SinkError,
    >)
        ensures
            final(self).policy_view() == old(self).policy_view(),
            r is Ok ==> final(self).store_view().outcomes() == old(self).store_view().outcomes().push((partition, success)),
            r is Err ==> final(self).store_view().outcomes() == old(self).store_view().outcomes(),
            old(self).store_view().accepts_within(old(self).policy_view().budget()) ==> r is Ok,
            old(self).store_view().fails_next(old(self).policy_view().budget()) ==> r is Err,
            r is Err ==> r == Err::<(), SinkError>(
                SinkError::GaveUp { attempts: old(self).policy_view().budget() as u32 },
            ) && final(self).store_view().attempts() == old(self).store_view().attempts()
                + old(self).policy_view().budget(),
            r is Ok ==> old(self).store_view().attempts() < final(self).store_view().attempts()
                <= old(self).store_view().attempts() + old(self).policy_view().budget(),
    {
        let ghost start = self.store.outcomes();
        let mut attempt: u32 = 0;
        loop
            invariant
                self.policy == old(self).policy,
                self.store.outcomes() == start,
                start == old(self).store_view().outcomes(),
                attempt < self.policy.budget(),
                old(self).store_view().accepts_within(self.policy.budget())
                    ==> self.store.accepts_within((self.policy.budget() - attempt) as nat),
                old(self).store_view().fails_next(self.policy.budget())
                    ==> self.store.fails_next((self.policy.budget() - attempt) as nat),
                self.store.attempts() == old(self).store_view().attempts() + attempt,
            decreases self.policy.budget() - attempt,
        {
            let res = self.store.try_record(partition, success);
            proof {
                let n = (self.policy.budget() - attempt - 1) as nat;
                assert(n + 1 == self.policy.budget() - attempt);
            }
            match self.policy.next_step(attempt, res.is_ok()) {
                RetryStep::Done => {
                    return Ok(());
                },
                RetryStep::GiveUp => {
                    return Err(SinkError::GaveUp { attempts: attempt + 1 });
                },
                RetryStep::Wait(ms) => {
                    self.store.pause(ms);
                },
            }
            attempt += 1;
        }
    }
}

impl<S: OutcomeStore> PartitionDoneSink for RetryingSink<S> {
    closed spec fn recorded(&self) -> Seq<(PartitionId, bool)> {
        self.store.outcomes()
    }

    /// Stores the outcome with up to the policy's number of attempts, as
    /// `record_outcome` does.
    fn record(&mut self, partition: PartitionId, res: Result<(), String>) -> (r: Result<
        (),
        SinkError,
    >)
        ensures
            final(self).policy_view() == old(self).policy_view(),
            r is Ok ==> final(self).store_view().outcomes() == old(self).store_view().outcomes().push((partition, res is Ok)),
            r is Err ==> final(self).store_view().outcomes() == old(self).store_view().outcomes(),
            old(self).store_view().accepts_within(old(self).policy_view().budget()) ==> r is Ok,
            old(self).store_view().fails_next(old(self).policy_view().budget()) ==> r is Err,
            r is Err ==> r == Err::<(), SinkError>(
                SinkError::GaveUp { attempts: old(self).policy_view().budget() as u32 },
            ) && final(self).store_view().attempts() == old(self).store_view().attempts()
                + old(self).policy_view().budget(),
            r is Ok ==> old(self).store_view().attempts() < final(self).store_view().attempts()
                <= old(self).store_view().attempts() + old(self).policy_view().budget(),
    {
        self.record_outcome(partition, res.is_ok())
    }
}

/// A store that fails a given number of attempts, then takes every outcome.
pub struct FlakyStore {
    failures_left: u64,
    outcomes: Vec<(PartitionId, bool)>,
    pauses: Vec<u64>,
    tries: Ghost<nat>,
}

impl FlakyStore {
    /// The number of attempts that fail before the first success.
    pub closed spec fn failures(&self) -> nat {
        self.failures_left as nat
    }

    /// The waits made so far, in milliseconds.
    pub closed spec fn waits(&self) -> Seq<u64> {
        self.pauses@
    }

    pub fn new(failures: u64) -> (r: FlakyStore)
        ensures
            r.failures() == failures,
            r.outcomes() == Seq::<(PartitionId, bool)>::empty(),
            r.waits() == Seq::<u64>::empty(),
            r.attempts() == 0,
    {
        FlakyStore {
            failures_left: failures,
            outcomes: Vec::new(),
            pauses: Vec::new(),
            tries: Ghost(0),
        }
    }

    /// The outcomes stored so far.
    pub fn stored(&self) -> (r: Vec<(PartitionId, bool)>)
        ensures
            r@ == self.outcomes(),
    {
        let mut r: Vec<(PartitionId, bool)> = Vec::new();
        let mut i: usize = 0;
        while i < self.outcomes.len()
            invariant
                i <= self.outcomes.len(),
                r@ == self.outcomes@.take(i as int),
            decreases self.outcomes.len() - i,
        {
            r.push(self.outcomes[i]);
            assert(self.outcomes@.take(i + 1) == self.outcomes@.take(i as int).push(
                self.outcomes@[i as int],
            ));
            i += 1;
        }
        assert(self.outcomes@.take(self.outcomes.len() as int) == self.outcomes@);
        r
    }

    /// The waits made so far, in milliseconds.
    pub fn paused(&self) -> (r: Vec<u64>)
        ensures
            r@ == self.waits(),
    {
        self.pauses.clone()
    }
}

impl OutcomeStore for FlakyStore {
    closed spec fn outcomes(&self) -> Seq<(PartitionId, bool)> {
        self.outcomes@
    }

    closed spec fn accepts_within(&self, n: nat) -> bool {
        self.failures_left < n
    }

    closed spec fn fails_next(&self, n: nat) -> bool {
        self.failures_left >= n
    }

    closed spec fn attempts(&self) -> nat {
        self.tries@
    }

    fn try_record(&mut self, partition: PartitionId, success: bool) -> (r: Result<
        (),
        StoreUnavailable,
    >) {
        self.tries = Ghost(self.tries@ + 1);
        if self.failures_left > 0 {
            self.failures_left = self.failures_left - 1;
            Err(StoreUnavailable {  })
        } else {
            self.outcomes.push((partition, success));
            Ok(())
        }
    }

    fn pause(&mut self, millis: u64) {
        self.pauses.push(millis);
    }
}

/// A sink whose store fails fewer times than the policy allows attempts
/// records the outcome: `record_outcome` then succeeds and stores exactly one
/// outcome.
pub proof fn lemma_flaky_store_within_budget(sink: &RetryingSink<FlakyStore>)
    requires
        sink.store_view().failures() < sink.policy_view().budget(),
    ensures
        sink.store_view().accepts_within(sink.policy_view().budget()),
{
}

/// A sink whose store fails at least as many times as the policy allows
/// attempts gives up: `record_outcome` then fails after every attempt and
/// stores nothing.
pub proof fn lemma_flaky_store_beyond_budget(sink: &RetryingSink<FlakyStore>)
    requires
        sink.store_view().failures() >= sink.policy_view().budget(),
    ensures
        sink.store_view().fails_next(sink.policy_view().budget()),
{
}

} // verus!

//! Connecting to the graph store: how often it is tried, how long to wait
//! between two attempts, and which error is reported when every attempt
//! failed.
//!
//! The driver makes an attempt (it connects and probes the store). When the
//! attempt fails it reports the error to [`RetryState::attempt_failed`],
//! waits as long as it is told, and then tries again or gives up as it is
//! told.

use vstd::prelude::*;

verus! {

/// The number of attempts that are made, unless another is asked for.
pub const RETRY_LIMIT: u8 = 10;

/// The seconds to wait after a failed attempt.
pub const RETRY_DELAY_SECS: u64 = 1;

/// What follows the wait after a failed attempt.
pub enum RetryDecision<E> {
    /// Try again, with this state.
    Retry(RetryState),
    /// Give up, and report this error: that of the attempt that failed last.
    GiveUp(E),
}

/// What to do after a failed attempt: wait, then follow the decision.
pub struct Backoff<E> {
    pub delay_secs: u64,
    pub decision: RetryDecision<E>,
}

/// The attempts that may still be made, the one under way included.
pub struct RetryState {
    remaining: u8,
}

impl View for RetryState {
    type V = nat;

    closed spec fn view(&self) -> nat {
        self.remaining as nat
    }
}

/// Whether something follows the failure of an attempt when `remaining`
/// attempts were left, that one included.
pub open spec fn retries_after(remaining: nat) -> bool {
    remaining > 1
}

impl RetryState {
    #[verifier::type_invariant]
    spec fn attempt_left(self) -> bool {
        self.remaining >= 1
    }

    /// The state before the first of [`RETRY_LIMIT`] attempts.
    pub fn new() -> (made: Self)
        ensures
            made@ == RETRY_LIMIT,
    {
        RetryState { remaining: RETRY_LIMIT }
    }

    /// The state before the first of `max_attempts` attempts.
    pub fn with_limit(max_attempts: u8) -> (made: Self)
        requires
            max_attempts >= 1,
        ensures
            made@ == max_attempts,
    {
        RetryState { remaining: max_attempts }
    }

    /// The attempts that may still be made, the one under way included: at
    /// least one.
    pub fn remaining(&self) -> (n: u8)
        ensures
            n == self@,
            n >= 1,
    {
        proof {
            use_type_invariant(self);
        }
        self.remaining
    }

    /// Decides what follows an attempt that failed with `error`: a wait of
    /// [`RETRY_DELAY_SECS`] seconds in every case, then another attempt if
    /// one is left, and else giving up with `error`.
    pub fn attempt_failed<E>(self, error: E) -> (backoff: Backoff<E>)
        ensures
            self@ >= 1,
            backoff.delay_secs == RETRY_DELAY_SECS,
            match backoff.decision {
                RetryDecision::Retry(next) => retries_after(self@) && next@ == self@ - 1,
                RetryDecision::GiveUp(reported) => !retries_after(self@) && reported == error,
            },
    {
        proof {
            use_type_invariant(&self);
        }
        if self.remaining > 1 {
            Backoff {
                delay_secs: RETRY_DELAY_SECS,
                decision: RetryDecision::Retry(RetryState { remaining: self.remaining - 1 }),
            }
        } else {
            Backoff { delay_secs: RETRY_DELAY_SECS, decision: RetryDecision::GiveUp(error) }
        }
    }
}

/// How connecting ended.
pub struct ConnectRun<E> {
    /// The attempts that were made.
    pub attempts: nat,
    /// The waits that were made.
    pub waits: nat,
    /// The error that was reported, or `None` where an attempt succeeded.
    pub reported: Option<E>,
}

/// How connecting ends when `remaining` attempts are left and the attempts
/// end as `outcomes` say, one after the other: `None` for an attempt that
/// succeeds, and its error for one that fails.
pub open spec fn connect_run<E>(remaining: nat, outcomes: Seq<Option<E>>) -> ConnectRun<E>
    recommends
        1 <= remaining <= outcomes.len(),
    decreases remaining,
{
    match outcomes[0] {
        None => ConnectRun { attempts: 1, waits: 0, reported: None },
        Some(error) => {
            if retries_after(remaining) {
                let rest = connect_run((remaining - 1) as nat, outcomes.drop_first());
                ConnectRun { attempts: rest.attempts + 1, waits: rest.waits + 1, ..rest }
            } else {
                ConnectRun { attempts: 1, waits: 1, reported: Some(error) }
            }
        },
    }
}

/// Connecting makes at least one attempt and at most as many as the limit
/// allows, and waits once after each attempt that failed. Where it succeeds,
/// the last attempt made is the first that succeeded. Where it gives up,
/// every attempt that the limit allows was made and failed, and the error
/// reported is that of the last one.
pub proof fn lemma_connect_run<E>(limit: nat, outcomes: Seq<Option<E>>)
    requires
        1 <= limit <= outcomes.len(),
    ensures
        ({
            let run = connect_run(limit, outcomes);
            &&& 1 <= run.attempts <= limit
            &&& forall|i: int| 0 <= i < run.attempts - 1 ==> (#[trigger] outcomes[i]) is Some
            &&& match run.reported {
                None => outcomes[run.attempts - 1] is None && run.waits == run.attempts - 1,
                Some(error) => run.attempts == limit && run.waits == limit && outcomes[limit - 1]
                    == Some(error),
            }
        }),
    decreases limit,
{
    if outcomes[0] is Some && retries_after(limit) {
        let rest = outcomes.drop_first();
        lemma_connect_run((limit - 1) as nat, rest);
        let run = connect_run(limit, outcomes);
        assert forall|i: int| 0 <= i < run.attempts - 1 implies (#[trigger] outcomes[i]) is Some by {
            if i > 0 {
                assert(outcomes[i] == rest[i - 1]);
            }
        }
        let inner = connect_run((limit - 1) as nat, rest);
        assert(outcomes[run.attempts - 1] == rest[inner.attempts - 1]);
        assert(outcomes[limit - 1] == rest[limit - 2]);
    }
}

} // verus!

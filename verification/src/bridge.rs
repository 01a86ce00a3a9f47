//! The backend completion bridge: the state machines that turn an engine's
//! asynchronous callback-style completion events into values transaction
//! logic can await and inspect, and the decisions commit and rollback take
//! once the transaction-level outcome is known.

use crate::kv::StoreError;
use vstd::prelude::*;

verus! {

/// A transaction's outcome cell content: `Open` until the backend fires the
/// transaction-level completion, abort or error event, then the terminal
/// state that event reports. It is mutated exactly once.
#[derive(Clone, Copy, Debug, PartialEq, Eq, Structural)]
pub enum WriteState {
    Open,
    Committed,
    Aborted,
    Errored,
}

/// The shared outcome cell: the one piece of state both the backend's
/// completion callback and the awaiting commit or rollback caller observe.
/// Whichever terminal event fires first resolves it; later events on an
/// already-resolved cell are discarded, never surfaced.
pub struct OutcomeCell {
    state: WriteState,
}

impl OutcomeCell {
    /// The outcome recorded so far.
    pub closed spec fn outcome(&self) -> WriteState {
        self.state
    }

    /// Whether a terminal event already resolved this cell.
    pub open spec fn resolved(&self) -> bool {
        self.outcome() != WriteState::Open
    }

    /// A fresh cell is unresolved.
    pub fn new() -> (c: OutcomeCell)
        ensures
            c.outcome() == WriteState::Open,
    {
        OutcomeCell { state: WriteState::Open }
    }

    /// Record a terminal event. The first event wins and is accepted; a
    /// second, redundant event is discarded and the cell keeps its outcome.
    pub fn resolve(&mut self, outcome: WriteState) -> (accepted: bool)
        requires
            outcome != WriteState::Open,
        ensures
            accepted == !old(self).resolved(),
            accepted ==> final(self).outcome() == outcome,
            !accepted ==> final(self).outcome() == old(self).outcome(),
    {
        if self.state == WriteState::Open {
            self.state = outcome;
            true
        } else {
            false
        }
    }

    /// Inspect the recorded outcome.
    pub fn state(&self) -> (s: WriteState)
        ensures
            s == self.outcome(),
    {
        self.state
    }
}

/// A single-use completion signal, created before its backend request is
/// issued and fulfilled by whichever callback (success or error) fires first.
/// A second fulfillment attempt is a logic error and is discarded.
pub struct CompletionSignal {
    fired: bool,
}

impl CompletionSignal {
    /// Whether the signal was fulfilled.
    pub closed spec fn is_fired(&self) -> bool {
        self.fired
    }

    /// A fresh signal is unfulfilled.
    pub fn new() -> (s: CompletionSignal)
        ensures
            !s.is_fired(),
    {
        CompletionSignal { fired: false }
    }

    /// Fulfill the signal. Only the first attempt is fresh; every later
    /// attempt reports stale and changes nothing.
    pub fn fulfill(&mut self) -> (fresh: bool)
        ensures
            fresh == !old(self).is_fired(),
            final(self).is_fired(),
    {
        let fresh = !self.fired;
        self.fired = true;
        fresh
    }
}

/// Decides a commit once the transaction-level outcome was awaited: a
/// backend-reported error is surfaced as it stands; any terminal state other
/// than `Committed` fails as an abort; only a clean `Committed` succeeds.
pub fn commit_outcome(outcome: WriteState, backend_error: Option<String>) -> (r: Result<
    (),
    StoreError,
>)
    requires
        outcome != WriteState::Open,
    ensures
        r is Ok <==> (backend_error is None && outcome == WriteState::Committed),
        backend_error matches Some(e) ==> (r matches Err(StoreError::Str(m)) && m@ == e@),
        backend_error is None && outcome != WriteState::Committed ==> (r matches Err(
            StoreError::Str(m),
        ) && m@ == "Transaction aborted"@),
{
    match backend_error {
        Some(e) => Err(StoreError::Str(e)),
        None => {
            if outcome == WriteState::Committed {
                Ok(())
            } else {
                Err(StoreError::Str("Transaction aborted".to_owned()))
            }
        },
    }
}

/// Whether a rollback is already satisfied before asking the backend for an
/// abort: a transaction whose outcome resolved on its own to `Committed` or
/// `Aborted` rolls back trivially (idempotent, not an error).
pub fn rollback_completed_early(outcome: WriteState) -> (done: bool)
    ensures
        done == (outcome == WriteState::Committed || outcome == WriteState::Aborted),
{
    outcome == WriteState::Committed || outcome == WriteState::Aborted
}

/// Decides a rollback once the backend abort was requested and the
/// transaction-level outcome awaited: a backend-reported error is surfaced;
/// any outcome other than `Aborted` is a failed abort; a clean `Aborted`
/// succeeds.
pub fn rollback_outcome(outcome: WriteState, backend_error: Option<String>) -> (r: Result<
    (),
    StoreError,
>)
    requires
        outcome != WriteState::Open,
    ensures
        r is Ok <==> (backend_error is None && outcome == WriteState::Aborted),
        backend_error matches Some(e) ==> (r matches Err(StoreError::Str(m)) && m@ == e@),
        backend_error is None && outcome != WriteState::Aborted ==> (r matches Err(
            StoreError::Str(m),
        ) && m@ == "Transaction abort failed"@),
{
    match backend_error {
        Some(e) => Err(StoreError::Str(e)),
        None => {
            if outcome == WriteState::Aborted {
                Ok(())
            } else {
                Err(StoreError::Str("Transaction abort failed".to_owned()))
            }
        },
    }
}

/// Interprets a backend count-by-key reply as presence: the key is there
/// exactly when at least one entry was counted.
pub fn count_to_has(count: u64) -> (r: bool)
    ensures
        r == (count >= 1),
{
    count >= 1
}

} // verus!

//! The cooperative cancellation state of one action.

use vstd::prelude::*;

use crate::error::{ErrorView, SdkError};

verus! {

#[derive(Clone, Copy, Debug, PartialEq, Eq, Structural)]
pub enum CancellationState {
    /// The action runs and nobody asked it to stop.
    Active,
    /// oll asked the action to stop before it ended.
    Cancelled,
    /// The action ended before anybody asked it to stop.
    Finished,
}

impl CancellationState {
    /// The state after a request to stop.
    pub open spec fn after_cancel(self) -> CancellationState {
        if self == CancellationState::Active {
            CancellationState::Cancelled
        } else {
            self
        }
    }

    /// The state after the action ended.
    pub open spec fn after_finish(self) -> CancellationState {
        if self == CancellationState::Active {
            CancellationState::Finished
        } else {
            self
        }
    }
}

/// Cooperative cancellation state of one action and its derived work.
#[derive(Clone, Copy, Debug, PartialEq, Eq, Structural)]
pub struct Cancellation {
    pub state: CancellationState,
}

impl Cancellation {
    /// The state of an action that has just been admitted.
    pub fn new() -> (result: Self)
        ensures
            result.state == CancellationState::Active,
    {
        Cancellation { state: CancellationState::Active }
    }

    /// Returns whether oll requested cancellation of the owning job.
    pub fn is_cancelled(&self) -> (result: bool)
        ensures
            result == (self.state == CancellationState::Cancelled),
    {
        self.state == CancellationState::Cancelled
    }

    /// Returns whether a wait for the end of the owning job is over: the job is
    /// cancelled or its action has already ended.
    pub fn cancelled(&self) -> (result: bool)
        ensures
            result == (self.state != CancellationState::Active),
    {
        self.state != CancellationState::Active
    }

    /// Refuses further work once the action is cancelled or has ended.
    pub fn ensure_active(&self) -> (result: Result<(), SdkError>)
        ensures
            match result {
                Ok(()) => self.state == CancellationState::Active,
                Err(error) => self.state != CancellationState::Active && error@
                    == ErrorView::Cancelled,
            },
    {
        if self.state == CancellationState::Active {
            Ok(())
        } else {
            Err(SdkError::Cancelled)
        }
    }

    /// Requests that the action stop. Returns whether waiters are to be woken.
    pub fn cancel(&mut self) -> (result: bool)
        ensures
            final(self).state == old(self).state.after_cancel(),
            result == (old(self).state == CancellationState::Active),
    {
        if self.state == CancellationState::Active {
            self.state = CancellationState::Cancelled;
            true
        } else {
            false
        }
    }

    /// Records that the action ended. Returns whether waiters are to be woken.
    pub fn finish(&mut self) -> (result: bool)
        ensures
            final(self).state == old(self).state.after_finish(),
            result == (old(self).state == CancellationState::Active),
    {
        if self.state == CancellationState::Active {
            self.state = CancellationState::Finished;
            true
        } else {
            false
        }
    }
}

/// How an operation ended that is given up as soon as its action is cancelled or
/// has ended.
pub enum Attempt<T> {
    /// The action is over.
    Cancelled,
    /// The operation failed, and this is what its error says.
    Failed(String),
    Done(T),
}

impl<T> Attempt<T> {
    /// What a failed attempt at `operation` is reported as.
    pub open spec fn error(self, operation: Seq<char>) -> Option<ErrorView> {
        match self {
            Attempt::Cancelled => Some(ErrorView::Cancelled),
            Attempt::Failed(source) => Some(ErrorView::Runtime { operation, source: source@ }),
            Attempt::Done(_) => None,
        }
    }

    /// The value of a successful attempt at `operation`.
    pub fn outcome(self, operation: &'static str) -> (result: Result<T, SdkError>)
        ensures
            match result {
                Ok(value) => self == Attempt::Done(value),
                Err(error) => self.error(operation@) == Some(error@),
            },
    {
        match self {
            Attempt::Cancelled => Err(SdkError::Cancelled),
            Attempt::Failed(source) => Err(SdkError::runtime(operation, source)),
            Attempt::Done(value) => Ok(value),
        }
    }
}

/// The state after a run of requests, in which `true` stands for a request to
/// stop and `false` for the end of the action.
pub open spec fn after_requests(
    state: CancellationState,
    requests: Seq<bool>,
) -> CancellationState
    decreases requests.len(),
{
    if requests.len() == 0 {
        state
    } else {
        let before = after_requests(state, requests.drop_last());
        if requests.last() {
            before.after_cancel()
        } else {
            before.after_finish()
        }
    }
}

/// The first request decides: whatever follows, an action that was cancelled
/// stays cancelled, and one that ended by itself is never seen as cancelled.
pub proof fn law_first_request_decides(requests: Seq<bool>)
    ensures
        requests.len() == 0 ==> after_requests(CancellationState::Active, requests)
            == CancellationState::Active,
        requests.len() > 0 && requests[0] ==> after_requests(CancellationState::Active, requests)
            == CancellationState::Cancelled,
        requests.len() > 0 && !requests[0] ==> after_requests(CancellationState::Active, requests)
            == CancellationState::Finished,
    decreases requests.len(),
{
    if requests.len() > 0 {
        law_first_request_decides(requests.drop_last());
    }
}

/// Once an action is cancelled or has ended, no request changes its state.
pub proof fn law_settled_states_are_final(state: CancellationState, requests: Seq<bool>)
    requires
        state != CancellationState::Active,
    ensures
        after_requests(state, requests) == state,
    decreases requests.len(),
{
    if requests.len() > 0 {
        law_settled_states_are_final(state, requests.drop_last());
    }
}

/// An operation that was given up is reported as cancelled, one that failed by what
/// its error says, and any other gives its value.
pub proof fn law_attempts_are_reported_as_they_ended<T>(
    attempt: Attempt<T>,
    operation: &'static str,
    result: Result<T, SdkError>,
)
    requires
        call_ensures(Attempt::<T>::outcome, (attempt, operation), result),
    ensures
        match attempt {
            Attempt::Done(value) => result == Ok::<T, SdkError>(value),
            Attempt::Cancelled => result is Err && result->Err_0@ == ErrorView::Cancelled,
            Attempt::Failed(source) => result is Err && result->Err_0@ == (ErrorView::Runtime {
                operation: operation@,
                source: source@,
            }),
        },
{
}

} // verus!

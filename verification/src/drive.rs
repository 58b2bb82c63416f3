use crate::error::RclReturnCode;
use std::time::Duration;
use vstd::prelude::*;

verus! {

/// Where the loop that drives a future stands while it has not returned.
#[derive(Clone, Copy, Debug, PartialEq, Eq, Structural)]
pub enum DriveState {
    /// The context is checked next. A loop begins here.
    Checking,
    /// The context was found valid: a readiness cycle is run next.
    Cycling,
    /// A cycle has succeeded: the future is polled next.
    Polling,
}

/// What the loop has learned from outside.
#[derive(Debug, PartialEq, Eq)]
pub enum DriveEvent<T> {
    /// The context was checked: whether it is valid.
    ContextChecked(bool),
    /// A readiness cycle has ended with this result.
    CycleFinished(Result<(), RclReturnCode>),
    /// The future was polled and gave this value.
    FutureReady(T),
    /// The future was polled and is not ready.
    FuturePending,
}

/// What the loop asks for next.
#[derive(Debug, PartialEq, Eq)]
pub enum DriveAction {
    /// Check whether the context is still valid.
    CheckContext,
    /// Run one readiness cycle with this timeout.
    RunCycle(Option<Duration>),
    /// Take the lock of the future and poll it once.
    PollFuture,
}

/// What the loop does after an event.
#[derive(Debug, PartialEq, Eq)]
pub enum Drive<T> {
    /// The loop goes on in `state` and asks for `action`.
    Continue { state: DriveState, action: DriveAction },
    /// The loop returns this result.
    Return(Result<T, RclReturnCode>),
}

impl DriveState {
    /// The action that the loop asks for in this state. A cycle is always
    /// run without a timeout.
    pub open spec fn spec_action(self) -> DriveAction {
        match self {
            DriveState::Checking => DriveAction::CheckContext,
            DriveState::Cycling => DriveAction::RunCycle(None),
            DriveState::Polling => DriveAction::PollFuture,
        }
    }

    /// The loop goes on in this state.
    pub open spec fn proceed<T>(self) -> Drive<T> {
        Drive::Continue { state: self, action: self.spec_action() }
    }

    /// Whether `event` is an answer to the action that the loop asks for.
    pub open spec fn accepts<T>(self, event: DriveEvent<T>) -> bool {
        match (self, event) {
            (DriveState::Checking, DriveEvent::ContextChecked(_)) => true,
            (DriveState::Cycling, DriveEvent::CycleFinished(_)) => true,
            (DriveState::Polling, DriveEvent::FutureReady(_)) => true,
            (DriveState::Polling, DriveEvent::FuturePending) => true,
            _ => false,
        }
    }

    /// What the loop does after `event`.
    ///
    /// While the context is invalid the loop only checks it again. With a
    /// valid context a cycle is run: if it succeeds the future is polled, if
    /// it times out the loop starts over without polling, and any other
    /// failure is returned. A ready future ends the loop with its value; a
    /// pending one starts the loop over. An event that is no answer to the
    /// pending action changes nothing.
    pub open spec fn step<T>(self, event: DriveEvent<T>) -> Drive<T> {
        if !self.accepts(event) {
            self.proceed()
        } else {
            match event {
                DriveEvent::ContextChecked(true) => DriveState::Cycling.proceed(),
                DriveEvent::ContextChecked(false) => DriveState::Checking.proceed(),
                DriveEvent::CycleFinished(Ok(_)) => DriveState::Polling.proceed(),
                DriveEvent::CycleFinished(Err(RclReturnCode::Timeout)) => {
                    DriveState::Checking.proceed()
                },
                DriveEvent::CycleFinished(Err(code)) => Drive::Return(Err(code)),
                DriveEvent::FutureReady(value) => Drive::Return(Ok(value)),
                DriveEvent::FuturePending => DriveState::Checking.proceed(),
            }
        }
    }

    /// The action that the loop asks for next.
    pub fn action(&self) -> (action: DriveAction)
        ensures
            action == self.spec_action(),
    {
        match self {
            DriveState::Checking => DriveAction::CheckContext,
            DriveState::Cycling => DriveAction::RunCycle(None),
            DriveState::Polling => DriveAction::PollFuture,
        }
    }
}

impl<T> Drive<T> {
    /// A loop as it begins: the context is checked first.
    pub open spec fn begin() -> Drive<T> {
        DriveState::Checking.proceed()
    }

    /// What the loop does after one more event; a loop that has returned
    /// takes no more events.
    pub open spec fn take(self, event: DriveEvent<T>) -> Drive<T> {
        match self {
            Drive::Continue { state, .. } => state.step(event),
            Drive::Return(result) => Drive::Return(result),
        }
    }

    /// What a loop does that has learned `events`, in this order, since it began.
    pub open spec fn after(events: Seq<DriveEvent<T>>) -> Drive<T>
        decreases events.len(),
    {
        if events.len() == 0 {
            Drive::begin()
        } else {
            Drive::after(events.drop_last()).take(events.last())
        }
    }

    /// The loop goes on in `state`.
    pub open spec fn is_in(self, state: DriveState) -> bool {
        self == state.proceed::<T>()
    }
}

fn proceed<T>(state: DriveState) -> (next: Drive<T>)
    ensures
        next == state.proceed::<T>(),
{
    Drive::Continue { state, action: state.action() }
}

/// One decision of the loop that drives a future to completion, with a
/// readiness cycle before each poll: from where the loop stands and what it
/// has learned, whether it returns, and if not where it stands next and
/// what it asks for.
///
/// The loop begins in `DriveState::Checking`, by checking the context.
pub fn spin_until_future_complete<T>(state: DriveState, event: DriveEvent<T>) -> (next: Drive<T>)
    ensures
        next == state.step(event),
{
    match (state, event) {
        (DriveState::Checking, DriveEvent::ContextChecked(valid)) => {
            if valid {
                proceed(DriveState::Cycling)
            } else {
                proceed(DriveState::Checking)
            }
        },
        (DriveState::Cycling, DriveEvent::CycleFinished(result)) => match result {
            Ok(_) => proceed(DriveState::Polling),
            Err(RclReturnCode::Timeout) => proceed(DriveState::Checking),
            Err(code) => Drive::Return(Err(code)),
        },
        (DriveState::Polling, DriveEvent::FutureReady(value)) => Drive::Return(Ok(value)),
        (DriveState::Polling, DriveEvent::FuturePending) => proceed(DriveState::Checking),
        (state, _) => proceed(state),
    }
}

/// The events of `rounds` checks in a row that find the context invalid.
pub open spec fn invalid_checks<T>(rounds: nat) -> Seq<DriveEvent<T>> {
    Seq::new(rounds, |i: int| DriveEvent::ContextChecked(false))
}

/// How many successful readiness cycles a loop has run that has learned `events`.
pub open spec fn cycles_run<T>(events: Seq<DriveEvent<T>>) -> nat
    decreases events.len(),
{
    if events.len() == 0 {
        0
    } else {
        let counted: nat = if Drive::after(events.drop_last()).is_in(DriveState::Cycling)
            && events.last() matches DriveEvent::CycleFinished(Ok(_)) {
            1
        } else {
            0
        };
        cycles_run(events.drop_last()) + counted
    }
}

/// How many times a loop has polled the future that has learned `events`.
pub open spec fn polls_made<T>(events: Seq<DriveEvent<T>>) -> nat
    decreases events.len(),
{
    if events.len() == 0 {
        0
    } else {
        let counted: nat = if Drive::after(events.drop_last()).is_in(DriveState::Polling) && (
        events.last() is FutureReady || events.last() is FuturePending) {
            1
        } else {
            0
        };
        polls_made(events.drop_last()) + counted
    }
}

/// A loop that has returned takes no more events: its result stays.
pub proof fn lemma_result_stays<T>(
    events: Seq<DriveEvent<T>>,
    later: Seq<DriveEvent<T>>,
    result: Result<T, RclReturnCode>,
)
    requires
        Drive::after(events) == Drive::Return(result),
    ensures
        Drive::after(events + later) == Drive::Return(result),
    decreases later.len(),
{
    if later.len() == 0 {
        assert(events + later == events);
    } else {
        lemma_result_stays(events, later.drop_last(), result);
        assert((events + later).drop_last() == events + later.drop_last());
    }
}

/// The poll that finds the future ready ends the loop with the value of the
/// future, whatever comes after.
pub proof fn lemma_ready_poll_returns_value<T>(
    events: Seq<DriveEvent<T>>,
    value: T,
    later: Seq<DriveEvent<T>>,
)
    requires
        Drive::after(events).is_in(DriveState::Polling),
    ensures
        Drive::after(events.push(DriveEvent::FutureReady(value)) + later) == Drive::Return(
            Ok(value),
        ),
{
    let polled = events.push(DriveEvent::FutureReady(value));
    assert(polled.drop_last() == events);
    lemma_result_stays(polled, later, Ok(value));
}

/// A poll that finds the future pending starts the loop over: the context
/// is checked and a cycle is run before the future is polled again.
pub proof fn lemma_pending_poll_starts_over<T>(events: Seq<DriveEvent<T>>)
    requires
        Drive::after(events).is_in(DriveState::Polling),
    ensures
        Drive::after(events.push(DriveEvent::FuturePending)).is_in(DriveState::Checking),
{
    assert(events.push(DriveEvent::FuturePending).drop_last() == events);
}

/// A loop that returns a value returns it at the first poll that found the
/// future ready: the value is that of the future, and no poll before it
/// found the future ready.
pub proof fn lemma_value_is_first_ready_poll<T>(events: Seq<DriveEvent<T>>, value: T) -> (at: int)
    requires
        Drive::after(events) == Drive::Return(Ok(value)),
    ensures
        0 <= at < events.len(),
        Drive::after(events.take(at)).is_in(DriveState::Polling),
        events[at] == DriveEvent::FutureReady(value),
        forall|j: int|
            0 <= j < at && (#[trigger] Drive::after(events.take(j))).is_in(DriveState::Polling)
                ==> !(events[j] is FutureReady),
    decreases events.len(),
{
    let before = events.drop_last();
    if Drive::after(before) == Drive::Return(Ok(value)) {
        let at = lemma_value_is_first_ready_poll(before, value);
        assert(before.take(at) == events.take(at));
        assert forall|j: int|
            0 <= j < at && (#[trigger] Drive::after(events.take(j))).is_in(
                DriveState::Polling,
            ) implies !(events[j] is FutureReady) by {
            assert(before.take(j) == events.take(j));
        }
        at
    } else {
        let at = events.len() - 1;
        assert(events.take(at) == before);
        assert forall|j: int|
            0 <= j < at && (#[trigger] Drive::after(events.take(j))).is_in(
                DriveState::Polling,
            ) implies !(events[j] is FutureReady) by {
            if events[j] is FutureReady {
                let found = events[j]->FutureReady_0;
                assert(events.take(j + 1).drop_last() == events.take(j));
                assert(Drive::after(events.take(j + 1)) == Drive::Return(Ok(found)));
                assert(events.take(j + 1) + before.skip(j + 1) == before);
                lemma_result_stays(events.take(j + 1), before.skip(j + 1), Ok(found));
            }
        }
        at
    }
}

/// A successful readiness cycle goes before every poll: a loop has polled
/// the future as often as it has run a successful cycle, less the poll that
/// it is about to make.
pub proof fn lemma_cycle_before_each_poll<T>(events: Seq<DriveEvent<T>>)
    ensures
        polls_made(events) <= cycles_run(events),
        cycles_run(events) == polls_made(events) + (if Drive::after(events).is_in(
            DriveState::Polling,
        ) {
            1nat
        } else {
            0nat
        }),
    decreases events.len(),
{
    if events.len() > 0 {
        lemma_cycle_before_each_poll(events.drop_last());
        lemma_continues_with_action(events.drop_last());
    }
}

/// A loop that goes on asks for the action of its state.
pub proof fn lemma_continues_with_action<T>(events: Seq<DriveEvent<T>>)
    ensures
        Drive::after(events) matches Drive::Continue { state, action } ==> action
            == state.spec_action(),
    decreases events.len(),
{
    if events.len() > 0 {
        lemma_continues_with_action(events.drop_last());
    }
}

/// A cycle that fails, but for a timeout, ends the loop with its code and
/// the future is given up; a cycle that times out starts the loop over
/// without a poll.
pub proof fn lemma_cycle_failure<T>(
    events: Seq<DriveEvent<T>>,
    code: RclReturnCode,
    later: Seq<DriveEvent<T>>,
)
    requires
        Drive::after(events).is_in(DriveState::Cycling),
    ensures
        code != RclReturnCode::Timeout ==> Drive::after(
            events.push(DriveEvent::CycleFinished(Err(code))) + later,
        ) == Drive::<T>::Return(Err(code)),
        code == RclReturnCode::Timeout ==> Drive::after(
            events.push(DriveEvent::CycleFinished(Err(code))),
        ).is_in(DriveState::Checking),
{
    let failed = events.push(DriveEvent::CycleFinished(Err(code)));
    assert(failed.drop_last() == events);
    if code != RclReturnCode::Timeout {
        lemma_result_stays(failed, later, Err(code));
    }
}

/// While the context is invalid the loop neither returns nor runs a cycle
/// nor polls the future: it only checks the context again.
pub proof fn lemma_invalid_context_is_waited_out<T>(rounds: nat)
    ensures
        Drive::after(invalid_checks::<T>(rounds)).is_in(DriveState::Checking),
    decreases rounds,
{
    if rounds > 0 {
        lemma_invalid_context_is_waited_out::<T>((rounds - 1) as nat);
        assert(invalid_checks::<T>(rounds).drop_last() == invalid_checks::<T>(
            (rounds - 1) as nat,
        ));
    }
}

/// Whatever the loop learns, it never returns `Timeout`.
pub proof fn lemma_never_returns_timeout<T>(events: Seq<DriveEvent<T>>)
    ensures
        Drive::after(events) != Drive::<T>::Return(Err(RclReturnCode::Timeout)),
    decreases events.len(),
{
    if events.len() > 0 {
        lemma_never_returns_timeout(events.drop_last());
    }
}

} // verus!

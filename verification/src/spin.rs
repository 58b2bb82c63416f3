use crate::error::RclReturnCode;
use std::time::Duration;
use vstd::prelude::*;

verus! {

/// Where the spinning loop stands.
#[derive(Clone, Copy, Debug, PartialEq, Eq, Structural)]
pub enum SpinState {
    /// Before a cycle: the context is checked next. A loop begins here, and
    /// comes back here after a cycle that succeeded.
    Polling,
    /// The same as `Polling`, after a cycle that timed out.
    RecoveringFromTimeout,
    /// The context was found valid: a cycle is run next.
    Cycling,
    /// The context was found invalid: the loop has ended well.
    Terminated,
    /// A cycle failed with this code, which is not `Timeout`: the loop has
    /// ended with it.
    Failed(RclReturnCode),
}

/// What the loop has learned from outside.
#[derive(Clone, Copy, Debug, PartialEq, Eq)]
pub enum SpinEvent {
    /// The context was checked: whether it is valid.
    ContextChecked(bool),
    /// A readiness cycle has ended with this result.
    CycleFinished(Result<(), RclReturnCode>),
}

/// What the loop asks for next.
#[derive(Debug, PartialEq, Eq)]
pub enum SpinAction {
    /// Check whether the context is still valid.
    CheckContext,
    /// Run one readiness cycle with this timeout.
    RunCycle(Option<Duration>),
    /// Leave the loop with this result.
    Return(Result<(), RclReturnCode>),
}

impl SpinState {
    /// No loop ends with `Timeout`.
    pub open spec fn wf(self) -> bool {
        self != SpinState::Failed(RclReturnCode::Timeout)
    }

    /// The loop has ended.
    pub open spec fn is_terminal(self) -> bool {
        self == SpinState::Terminated || self is Failed
    }

    /// The action that the loop asks for in this state. A cycle is always
    /// run without a timeout.
    pub open spec fn spec_action(self) -> SpinAction {
        match self {
            SpinState::Polling => SpinAction::CheckContext,
            SpinState::RecoveringFromTimeout => SpinAction::CheckContext,
            SpinState::Cycling => SpinAction::RunCycle(None),
            SpinState::Terminated => SpinAction::Return(Ok(())),
            SpinState::Failed(code) => SpinAction::Return(Err(code)),
        }
    }

    /// Whether `event` is an answer to the action that the loop asks for.
    pub open spec fn accepts(self, event: SpinEvent) -> bool {
        match (self, event) {
            (SpinState::Polling, SpinEvent::ContextChecked(_)) => true,
            (SpinState::RecoveringFromTimeout, SpinEvent::ContextChecked(_)) => true,
            (SpinState::Cycling, SpinEvent::CycleFinished(_)) => true,
            _ => false,
        }
    }

    /// The state after `event`. An invalid context ends the loop well, a
    /// cycle that timed out is taken up again, any other failure ends the
    /// loop; an event that is no answer to the pending action changes
    /// nothing.
    pub open spec fn step(self, event: SpinEvent) -> SpinState {
        if !self.accepts(event) {
            self
        } else {
            match event {
                SpinEvent::ContextChecked(true) => SpinState::Cycling,
                SpinEvent::ContextChecked(false) => SpinState::Terminated,
                SpinEvent::CycleFinished(Ok(_)) => SpinState::Polling,
                SpinEvent::CycleFinished(Err(RclReturnCode::Timeout)) => {
                    SpinState::RecoveringFromTimeout
                },
                SpinEvent::CycleFinished(Err(code)) => SpinState::Failed(code),
            }
        }
    }

    /// The state after the events `events`, taken in order.
    pub open spec fn run(self, events: Seq<SpinEvent>) -> SpinState
        decreases events.len(),
    {
        if events.len() == 0 {
            self
        } else {
            self.run(events.drop_last()).step(events.last())
        }
    }

    /// The action that the loop asks for next.
    pub fn action(&self) -> (action: SpinAction)
        ensures
            action == self.spec_action(),
    {
        match self {
            SpinState::Polling => SpinAction::CheckContext,
            SpinState::RecoveringFromTimeout => SpinAction::CheckContext,
            SpinState::Cycling => SpinAction::RunCycle(None),
            SpinState::Terminated => SpinAction::Return(Ok(())),
            SpinState::Failed(code) => SpinAction::Return(Err(*code)),
        }
    }
}

/// One decision of the loop that calls a readiness cycle again and again
/// until the context is no longer valid: from where the loop stands and
/// what it has learned, where it stands next and what it asks for.
///
/// The loop begins in `SpinState::Polling`, by checking the context.
pub fn spin(state: SpinState, event: SpinEvent) -> (next: (SpinState, SpinAction))
    ensures
        next.0 == state.step(event),
        next.1 == next.0.spec_action(),
        state.wf() ==> next.0.wf(),
{
    let after = match (state, event) {
        (SpinState::Polling, SpinEvent::ContextChecked(valid))
        | (SpinState::RecoveringFromTimeout, SpinEvent::ContextChecked(valid)) => {
            if valid {
                SpinState::Cycling
            } else {
                SpinState::Terminated
            }
        },
        (SpinState::Cycling, SpinEvent::CycleFinished(result)) => match result {
            Ok(_) => SpinState::Polling,
            Err(RclReturnCode::Timeout) => SpinState::RecoveringFromTimeout,
            Err(code) => SpinState::Failed(code),
        },
        (state, _) => state,
    };
    (after, after.action())
}

/// The events of `rounds` iterations in each of which the context is valid
/// and the cycle times out.
pub open spec fn timeouts(rounds: nat) -> Seq<SpinEvent>
    decreases rounds,
{
    if rounds == 0 {
        Seq::empty()
    } else {
        timeouts((rounds - 1) as nat).push(SpinEvent::ContextChecked(true)).push(
            SpinEvent::CycleFinished(Err(RclReturnCode::Timeout)),
        )
    }
}

/// Running on after `events` is running from where `events` led.
pub proof fn lemma_run_concat(state: SpinState, events: Seq<SpinEvent>, more: Seq<SpinEvent>)
    ensures
        state.run(events + more) == state.run(events).run(more),
    decreases more.len(),
{
    if more.len() == 0 {
        assert(events + more == events);
    } else {
        lemma_run_concat(state, events, more.drop_last());
        assert((events + more).drop_last() == events + more.drop_last());
    }
}

/// A loop that has ended stays as it is, whatever comes: it asks for no
/// further check and no further cycle.
pub proof fn lemma_terminal_stays(state: SpinState, events: Seq<SpinEvent>)
    requires
        state.is_terminal(),
    ensures
        state.run(events) == state,
    decreases events.len(),
{
    if events.len() > 0 {
        lemma_terminal_stays(state, events.drop_last());
    }
}

/// Any number of timeouts in a row is absorbed: after them the loop has not
/// returned, and checks the context again.
pub proof fn lemma_absorbs_timeouts(rounds: nat)
    ensures
        SpinState::Polling.run(timeouts(rounds)) == (if rounds == 0 {
            SpinState::Polling
        } else {
            SpinState::RecoveringFromTimeout
        }),
        SpinState::Polling.run(timeouts(rounds)).spec_action() == SpinAction::CheckContext,
    decreases rounds,
{
    if rounds > 0 {
        lemma_absorbs_timeouts((rounds - 1) as nat);
        let before = timeouts((rounds - 1) as nat);
        let checked = before.push(SpinEvent::ContextChecked(true));
        let all = checked.push(SpinEvent::CycleFinished(Err(RclReturnCode::Timeout)));
        assert(checked.drop_last() == before);
        assert(SpinState::Polling.run(checked) == SpinState::Cycling);
        assert(all.drop_last() == checked);
        assert(SpinState::Polling.run(all) == SpinState::RecoveringFromTimeout);
    }
}

/// Once the context is seen to be invalid the loop returns `Ok(())`: at
/// once, without a further cycle, whatever went before and whatever comes
/// after.
pub proof fn lemma_invalid_context_ends_loop(
    events: Seq<SpinEvent>,
    later: Seq<SpinEvent>,
)
    requires
        SpinState::Polling.run(events).spec_action() == SpinAction::CheckContext,
    ensures
        SpinState::Polling.run(events.push(SpinEvent::ContextChecked(false)) + later)
            == SpinState::Terminated,
        SpinState::Terminated.spec_action() == SpinAction::Return(Ok(())),
{
    let seen = events.push(SpinEvent::ContextChecked(false));
    assert(seen.drop_last() == events);
    lemma_run_concat(SpinState::Polling, seen, later);
    lemma_terminal_stays(SpinState::Terminated, later);
}

/// The first failure that is not a timeout is returned at once: the loop
/// ends with its code and asks for no further cycle, whatever comes after.
pub proof fn lemma_first_failure_is_returned(
    events: Seq<SpinEvent>,
    code: RclReturnCode,
    later: Seq<SpinEvent>,
)
    requires
        SpinState::Polling.run(events).spec_action() == SpinAction::RunCycle(None),
        code != RclReturnCode::Timeout,
    ensures
        SpinState::Polling.run(events.push(SpinEvent::CycleFinished(Err(code))) + later)
            == SpinState::Failed(code),
        SpinState::Failed(code).spec_action() == SpinAction::Return(Err(code)),
{
    let failed = events.push(SpinEvent::CycleFinished(Err(code)));
    assert(failed.drop_last() == events);
    lemma_run_concat(SpinState::Polling, failed, later);
    lemma_terminal_stays(SpinState::Failed(code), later);
}

/// An event that ends no loop: a valid context, a cycle that succeeded or
/// one that timed out.
pub open spec fn goes_on(event: SpinEvent) -> bool {
    match event {
        SpinEvent::ContextChecked(valid) => valid,
        SpinEvent::CycleFinished(Ok(_)) => true,
        SpinEvent::CycleFinished(Err(code)) => code == RclReturnCode::Timeout,
    }
}

/// While the context is valid and every cycle succeeds or times out, the
/// loop does not return, however long this goes on.
pub proof fn lemma_spins_while_nothing_ends_it(events: Seq<SpinEvent>)
    requires
        forall|i: int| 0 <= i < events.len() ==> goes_on(#[trigger] events[i]),
    ensures
        !SpinState::Polling.run(events).is_terminal(),
    decreases events.len(),
{
    if events.len() > 0 {
        let before = events.drop_last();
        assert forall|i: int| 0 <= i < before.len() implies goes_on(#[trigger] before[i]) by {
            assert(before[i] == events[i]);
        }
        lemma_spins_while_nothing_ends_it(before);
        assert(goes_on(events[events.len() - 1]));
    }
}

/// Whatever the loop learns, it never returns `Timeout`. It returns
/// `Ok(())` only because the context was found invalid, and an error only
/// because a cycle failed with it.
pub proof fn lemma_returns_only_for_cause(events: Seq<SpinEvent>)
    ensures
        SpinState::Polling.run(events).wf(),
        SpinState::Polling.run(events).spec_action() != SpinAction::Return(
            Err(RclReturnCode::Timeout),
        ),
        SpinState::Polling.run(events) == SpinState::Terminated ==> exists|i: int|
            0 <= i < events.len() && #[trigger] events[i] == SpinEvent::ContextChecked(false),
        forall|code: RclReturnCode|
            SpinState::Polling.run(events) == SpinState::Failed(code) ==> exists|i: int|
                0 <= i < events.len() && #[trigger] events[i] == SpinEvent::CycleFinished(
                    Err(code),
                ),
    decreases events.len(),
{
    if events.len() > 0 {
        let earlier = events.drop_last();
        lemma_returns_only_for_cause(earlier);
        let before = SpinState::Polling.run(earlier);
        let last = events.len() - 1;
        if SpinState::Polling.run(events) == SpinState::Terminated {
            if before == SpinState::Terminated {
                let i = choose|i: int|
                    0 <= i < earlier.len() && #[trigger] earlier[i] == SpinEvent::ContextChecked(
                        false,
                    );
                assert(events[i] == SpinEvent::ContextChecked(false));
            } else {
                assert(events[last] == SpinEvent::ContextChecked(false));
            }
        }
        assert forall|code: RclReturnCode|
            SpinState::Polling.run(events) == SpinState::Failed(code) implies exists|i: int|
            0 <= i < events.len() && #[trigger] events[i] == SpinEvent::CycleFinished(
                Err(code),
            ) by {
            if before == SpinState::Failed(code) {
                let i = choose|i: int|
                    0 <= i < earlier.len() && #[trigger] earlier[i] == SpinEvent::CycleFinished(
                        Err(code),
                    );
                assert(events[i] == SpinEvent::CycleFinished(Err(code)));
            } else {
                assert(events[last] == SpinEvent::CycleFinished(Err(code)));
            }
        }
    }
}

} // verus!

use crate::cycle::{failure_in, Cycle, CycleAction, CycleEvent, CycleView, StageView};
use crate::entity::LiveEntities;
use crate::error::RclReturnCode;
use crate::middleware::{answered, Middleware};
use std::time::Duration;
use vstd::prelude::*;

verus! {

/// `events` are the answers of `node` to the actions of a cycle on `live`,
/// one after the other from the first action on.
pub open spec fn transcript<M: Middleware>(
    node: &M,
    live: LiveEntities,
    timeout: Option<Duration>,
    events: Seq<CycleEvent>,
) -> bool {
    forall|i: int|
        0 <= i < events.len() ==> answered(
            node,
            #[trigger] CycleView::start(live, timeout).run(events.take(i)).action(),
            events[i],
        )
}

/// A cycle on the snapshot `live` of `node`, answered by `events`, has ended
/// with `result`.
pub open spec fn cycle_ran<M: Middleware>(
    node: &M,
    timeout: Option<Duration>,
    live: LiveEntities,
    events: Seq<CycleEvent>,
    result: Result<(), RclReturnCode>,
) -> bool {
    &&& call_ensures(M::live_entities, (node,), live)
    &&& transcript(node, live, timeout, events)
    &&& CycleView::start(live, timeout).run(events).action() == CycleAction::Return(result)
}

/// Polls the node for new messages and executes the corresponding callbacks.
///
/// One cycle: the entities of the node that are alive are put into a wait set
/// of exactly their number, the wait set is waited on, and the callback of
/// each entity that is ready is run, subscriptions first, then clients, then
/// services. The first call that fails ends the cycle with its code.
///
/// A cycle may return `SubscriptionTakeFailed`, `ClientTakeFailed` or
/// `ServiceTakeFailed` when the wait set wakes up spuriously. This can
/// usually be ignored.
pub fn spin_once<M: Middleware>(node: &M, timeout: Option<Duration>) -> (result: Result<
    (),
    RclReturnCode,
>)
    ensures
        exists|live: LiveEntities, events: Seq<CycleEvent>|
            cycle_ran(node, timeout, live, events, result),
{
    let live = node.live_entities();
    let mut cycle = Cycle::start(&live, timeout);
    let ghost begin = CycleView::start(live, timeout);
    let ghost mut events: Seq<CycleEvent> = Seq::empty();
    loop
        invariant
            begin == CycleView::start(live, timeout),
            call_ensures(M::live_entities, (node,), live),
            cycle@ == begin.run(events),
            cycle@.wf(),
            transcript(node, live, timeout, events),
        decreases cycle@.rank(), cycle@.pending(),
    {
        let event = match cycle.action() {
            CycleAction::CreateWaitSet(capacity) => CycleEvent::Done(
                node.create_wait_set(capacity),
            ),
            CycleAction::Register(entity) => CycleEvent::Done(node.register(entity)),
            CycleAction::Wait(timeout) => CycleEvent::Woke(node.wait(timeout)),
            CycleAction::Execute(entity) => CycleEvent::Done(node.execute(entity)),
            CycleAction::Return(result) => {
                assert(cycle_ran(node, timeout, live, events, result));
                return result;
            },
        };
        proof {
            let longer = events.push(event);
            assert(longer.drop_last() == events);
            assert forall|i: int| 0 <= i < longer.len() implies answered(
                node,
                #[trigger] begin.run(longer.take(i)).action(),
                longer[i],
            ) by {
                if i < events.len() {
                    assert(longer.take(i) == events.take(i));
                } else {
                    assert(longer.take(i) == events);
                }
            }
            cycle@.lemma_step_keeps_wf(event);
            events = longer;
        }
        cycle = cycle.step(event);
    }
}

/// In a transcript nothing is asked of the node after a failure: up to any
/// point in it the cycle is well formed, no answer but the last has failed,
/// and a failure has ended the cycle with its code.
pub proof fn lemma_transcript_stops_at_failure<M: Middleware>(
    node: &M,
    live: LiveEntities,
    timeout: Option<Duration>,
    events: Seq<CycleEvent>,
    upto: int,
)
    requires
        transcript(node, live, timeout, events),
        0 <= upto <= events.len(),
    ensures
        CycleView::start(live, timeout).run(events.take(upto)).wf(),
        forall|j: int| 0 <= j < upto - 1 ==> failure_in(#[trigger] events[j]) is None,
        upto > 0 ==> (match failure_in(events[upto - 1]) {
            Some(code) => CycleView::start(live, timeout).run(events.take(upto)).stage
                == StageView::Finished { outcome: Err(code) },
            None => !(CycleView::start(live, timeout).run(
                events.take(upto),
            ).stage matches StageView::Finished { outcome: Err(_) }),
        }),
    decreases upto,
{
    let begin = CycleView::start(live, timeout);
    if upto == 0 {
        assert(events.take(0) == Seq::<CycleEvent>::empty());
    } else {
        lemma_transcript_stops_at_failure(node, live, timeout, events, upto - 1);
        let reached = begin.run(events.take(upto - 1));
        let event = events[upto - 1];
        assert(answered(node, reached.action(), event));
        assert(events.take(upto).drop_last() == events.take(upto - 1));
        assert(begin.run(events.take(upto)) == reached.step(event));
        reached.lemma_step_keeps_wf(event);
    }
}

/// What a cycle returns: `Ok(())` exactly if the node failed at nothing
/// that it was asked for, and else the code of the first failure. That
/// failure was the last answer: nothing was asked of the node after it.
pub proof fn lemma_result_is_first_failure<M: Middleware>(
    node: &M,
    timeout: Option<Duration>,
    live: LiveEntities,
    events: Seq<CycleEvent>,
    result: Result<(), RclReturnCode>,
)
    requires
        cycle_ran(node, timeout, live, events, result),
    ensures
        events.len() > 0,
        forall|j: int| 0 <= j < events.len() - 1 ==> failure_in(#[trigger] events[j]) is None,
        result == (match failure_in(events.last()) {
            Some(code) => Err::<(), RclReturnCode>(code),
            None => Ok(()),
        }),
{
    if events.len() == 0 {
        assert(CycleView::start(live, timeout).run(events) == CycleView::start(live, timeout));
    }
    lemma_transcript_stops_at_failure(node, live, timeout, events, events.len() as int);
    assert(events.take(events.len() as int) == events);
    if let Ok(unit) = result {
        assert(unit == ());
    }
}

} // verus!

use crate::entity::{Entity, LiveEntities, ReadyEntities, WaitSetCapacity};
use crate::error::RclReturnCode;
use std::time::Duration;
use vstd::prelude::*;

verus! {

/// What a cycle asks of the middleware next.
#[derive(Debug, PartialEq, Eq)]
pub enum CycleAction {
    /// Make the wait set of this cycle, with these sizes.
    CreateWaitSet(WaitSetCapacity),
    /// Add this entity to the wait set.
    Register(Entity),
    /// Block on the wait set; `None` blocks until an entity is ready.
    Wait(Option<Duration>),
    /// Run the callback of this entity.
    Execute(Entity),
    /// The cycle is over, with this result.
    Return(Result<(), RclReturnCode>),
}

/// How the middleware answered an action.
#[derive(Debug, PartialEq, Eq)]
pub enum CycleEvent {
    /// The answer to `CreateWaitSet`, `Register` and `Execute`.
    Done(Result<(), RclReturnCode>),
    /// The answer to `Wait`.
    Woke(Result<ReadyEntities, RclReturnCode>),
}

/// Where a cycle stands, as a mathematical value.
pub enum StageView {
    Creating,
    Registering { next: int },
    Waiting,
    Dispatching { ready: Seq<Entity>, next: int },
    Finished { outcome: Result<(), RclReturnCode> },
}

/// The model of a cycle: what it was started with, and where it stands.
pub struct CycleView {
    pub live: Seq<Entity>,
    pub capacity: WaitSetCapacity,
    pub timeout: Option<Duration>,
    pub stage: StageView,
}

impl CycleView {
    /// A cycle that begins on the snapshot `live`.
    pub open spec fn start(live: LiveEntities, timeout: Option<Duration>) -> CycleView {
        CycleView {
            live: live.order(),
            capacity: live.spec_capacity(),
            timeout,
            stage: StageView::Creating,
        }
    }

    /// The entity that a cycle is busy with lies inside its sequence.
    pub open spec fn wf(self) -> bool {
        match self.stage {
            StageView::Registering { next } => 0 <= next < self.live.len(),
            StageView::Dispatching { ready, next } => 0 <= next < ready.len(),
            _ => true,
        }
    }

    pub open spec fn at(self, stage: StageView) -> CycleView {
        CycleView { stage, ..self }
    }

    /// Registration goes on with the entity at `next`; past the last one the
    /// cycle waits.
    pub open spec fn register_from(self, next: int) -> CycleView {
        if next < self.live.len() {
            self.at(StageView::Registering { next })
        } else {
            self.at(StageView::Waiting)
        }
    }

    /// Dispatch goes on with the ready entity at `next`; past the last one
    /// the cycle has succeeded.
    pub open spec fn dispatch_from(self, ready: Seq<Entity>, next: int) -> CycleView {
        if next < ready.len() {
            self.at(StageView::Dispatching { ready, next })
        } else {
            self.at(StageView::Finished { outcome: Ok(()) })
        }
    }

    pub open spec fn fail(self, code: RclReturnCode) -> CycleView {
        self.at(StageView::Finished { outcome: Err(code) })
    }

    /// The action that the cycle asks for in this state.
    pub open spec fn action(self) -> CycleAction {
        match self.stage {
            StageView::Creating => CycleAction::CreateWaitSet(self.capacity),
            StageView::Registering { next } => CycleAction::Register(self.live[next]),
            StageView::Waiting => CycleAction::Wait(self.timeout),
            StageView::Dispatching { ready, next } => CycleAction::Execute(ready[next]),
            StageView::Finished { outcome } => CycleAction::Return(outcome),
        }
    }

    /// Whether `event` is an answer to the action that the cycle asks for.
    pub open spec fn accepts(self, event: CycleEvent) -> bool {
        match (self.stage, event) {
            (StageView::Finished { .. }, _) => false,
            (StageView::Waiting, CycleEvent::Woke(_)) => true,
            (StageView::Waiting, CycleEvent::Done(_)) => false,
            (_, CycleEvent::Done(_)) => true,
            (_, CycleEvent::Woke(_)) => false,
        }
    }

    /// The state after `event`. The first failure ends the cycle with its
    /// code; an event that is no answer to the pending action changes nothing.
    pub open spec fn step(self, event: CycleEvent) -> CycleView {
        if !self.accepts(event) {
            self
        } else {
            match event {
                CycleEvent::Done(Err(code)) => self.fail(code),
                CycleEvent::Woke(Err(code)) => self.fail(code),
                CycleEvent::Woke(Ok(ready)) => self.dispatch_from(ready.order(), 0),
                CycleEvent::Done(Ok(_)) => match self.stage {
                    StageView::Creating => self.register_from(0),
                    StageView::Registering { next } => self.register_from(next + 1),
                    StageView::Dispatching { ready, next } => self.dispatch_from(ready, next + 1),
                    _ => self,
                },
            }
        }
    }

    /// The state after the events `events`, taken in order.
    pub open spec fn run(self, events: Seq<CycleEvent>) -> CycleView
        decreases events.len(),
    {
        if events.len() == 0 {
            self
        } else {
            self.run(events.drop_last()).step(events.last())
        }
    }

    /// A step keeps a cycle well formed.
    pub proof fn lemma_step_keeps_wf(self, event: CycleEvent)
        requires
            self.wf(),
        ensures
            self.step(event).wf(),
    {
    }

    /// 2 before the wait has answered, 1 while ready entities are executed,
    /// 0 at the end.
    pub open spec fn rank(self) -> nat {
        match self.stage {
            StageView::Finished { .. } => 0,
            StageView::Dispatching { .. } => 1,
            _ => 2,
        }
    }

    /// How many answers the cycle still takes before its rank falls.
    pub open spec fn pending(self) -> nat {
        match self.stage {
            StageView::Creating => self.live.len() + 2,
            StageView::Registering { next } => (self.live.len() - next + 1) as nat,
            StageView::Waiting => 1,
            StageView::Dispatching { ready, next } => (ready.len() - next) as nat,
            StageView::Finished { .. } => 0,
        }
    }
}

enum Stage {
    Creating,
    Registering { next: usize },
    Waiting,
    Dispatching { ready: Vec<Entity>, next: usize },
    Finished { outcome: Result<(), RclReturnCode> },
}

impl Stage {
    spec fn model(self) -> StageView {
        match self {
            Stage::Creating => StageView::Creating,
            Stage::Registering { next } => StageView::Registering { next: next as int },
            Stage::Waiting => StageView::Waiting,
            Stage::Dispatching { ready, next } => StageView::Dispatching {
                ready: ready@,
                next: next as int,
            },
            Stage::Finished { outcome } => StageView::Finished { outcome },
        }
    }
}

/// One readiness cycle as a state machine: it names the next action, takes
/// the middleware's answer, and ends with the result of the cycle.
pub struct Cycle {
    live: Vec<Entity>,
    capacity: WaitSetCapacity,
    timeout: Option<Duration>,
    stage: Stage,
}

impl View for Cycle {
    type V = CycleView;

    closed spec fn view(&self) -> CycleView {
        CycleView {
            live: self.live@,
            capacity: self.capacity,
            timeout: self.timeout,
            stage: self.stage.model(),
        }
    }
}

impl Cycle {
    #[verifier::type_invariant]
    spec fn inv(self) -> bool {
        self@.wf()
    }

    /// Begins a cycle on a snapshot of the node's live entities.
    pub fn start(live: &LiveEntities, timeout: Option<Duration>) -> (cycle: Cycle)
        ensures
            cycle@ == CycleView::start(*live, timeout),
    {
        Cycle {
            live: live.in_order(),
            capacity: live.capacity(),
            timeout,
            stage: Stage::Creating,
        }
    }

    /// The action that the cycle asks for next.
    pub fn action(&self) -> (action: CycleAction)
        ensures
            action == self@.action(),
    {
        proof {
            use_type_invariant(self);
        }
        match &self.stage {
            Stage::Creating => CycleAction::CreateWaitSet(self.capacity),
            Stage::Registering { next } => CycleAction::Register(self.live[*next]),
            Stage::Waiting => CycleAction::Wait(self.timeout),
            Stage::Dispatching { ready, next } => CycleAction::Execute(ready[*next]),
            Stage::Finished { outcome } => CycleAction::Return(*outcome),
        }
    }

    fn register_from(live: &Vec<Entity>, next: usize) -> (stage: Stage)
        ensures
            stage.model() == (if next < live.len() {
                StageView::Registering { next: next as int }
            } else {
                StageView::Waiting
            }),
    {
        if next < live.len() {
            Stage::Registering { next }
        } else {
            Stage::Waiting
        }
    }

    fn dispatch_from(ready: Vec<Entity>, next: usize) -> (stage: Stage)
        ensures
            stage.model() == (if next < ready.len() {
                StageView::Dispatching { ready: ready@, next: next as int }
            } else {
                StageView::Finished { outcome: Ok(()) }
            }),
    {
        if next < ready.len() {
            Stage::Dispatching { ready, next }
        } else {
            Stage::Finished { outcome: Ok(()) }
        }
    }

    /// Takes the middleware's answer to the pending action.
    pub fn step(self, event: CycleEvent) -> (next: Cycle)
        ensures
            next@ == self@.step(event),
    {
        proof {
            use_type_invariant(&self);
        }
        let ghost before = self@;
        let Cycle { live, capacity, timeout, stage } = self;
        let stage = match (stage, event) {
            (Stage::Finished { outcome }, _) => Stage::Finished { outcome },
            (Stage::Waiting, CycleEvent::Woke(Ok(ready))) => Cycle::dispatch_from(
                ready.in_order(),
                0,
            ),
            (Stage::Waiting, CycleEvent::Woke(Err(code))) => Stage::Finished { outcome: Err(code) },
            (Stage::Waiting, CycleEvent::Done(_)) => Stage::Waiting,
            (stage, CycleEvent::Woke(_)) => stage,
            (_, CycleEvent::Done(Err(code))) => Stage::Finished { outcome: Err(code) },
            (Stage::Creating, CycleEvent::Done(Ok(_))) => Cycle::register_from(&live, 0),
            (Stage::Registering { next }, CycleEvent::Done(Ok(_))) => {
                assert(next < live.len());
                Cycle::register_from(&live, next + 1)
            },
            (Stage::Dispatching { ready, next }, CycleEvent::Done(Ok(_))) => {
                assert(next < ready.len());
                Cycle::dispatch_from(ready, next + 1)
            },
        };
        let next = Cycle { live, capacity, timeout, stage };
        proof {
            assert(next@ == before.step(event));
        }
        next
    }
}

/// `count` answers in a row that report success.
pub open spec fn successes(count: nat) -> Seq<CycleEvent> {
    Seq::new(count, |i: int| CycleEvent::Done(Ok(())))
}

/// The code that `event` reports, if it reports a failure.
pub open spec fn failure_in(event: CycleEvent) -> Option<RclReturnCode> {
    match event {
        CycleEvent::Done(Err(code)) => Some(code),
        CycleEvent::Woke(Err(code)) => Some(code),
        _ => None,
    }
}

impl CycleView {
    /// The actions that the cycle asks for while it takes `events`: the one
    /// it begins with, and the one after each event.
    pub open spec fn actions(self, events: Seq<CycleEvent>) -> Seq<CycleAction> {
        Seq::new(events.len() + 1, |i: int| self.run(events.take(i)).action())
    }

    /// Running on after `events` is running from where `events` led.
    pub proof fn lemma_run_concat(self, events: Seq<CycleEvent>, more: Seq<CycleEvent>)
        ensures
            self.run(events + more) == self.run(events).run(more),
        decreases more.len(),
    {
        if more.len() == 0 {
            assert(events + more == events);
        } else {
            self.lemma_run_concat(events, more.drop_last());
            assert((events + more).drop_last() == events + more.drop_last());
        }
    }

    /// A cycle that is over stays as it is: it asks for nothing more.
    pub proof fn lemma_finished_stays(self, events: Seq<CycleEvent>)
        requires
            self.stage is Finished,
        ensures
            self.run(events) == self,
        decreases events.len(),
    {
        if events.len() > 0 {
            self.lemma_finished_stays(events.drop_last());
        }
    }

    /// A cycle stays well formed whatever it takes.
    pub proof fn lemma_run_keeps_wf(self, events: Seq<CycleEvent>)
        requires
            self.wf(),
        ensures
            self.run(events).wf(),
        decreases events.len(),
    {
        if events.len() > 0 {
            self.lemma_run_keeps_wf(events.drop_last());
            self.run(events.drop_last()).lemma_step_keeps_wf(events.last());
        }
    }

    /// A cycle never changes what it was started with.
    pub proof fn lemma_run_keeps_start(self, events: Seq<CycleEvent>)
        ensures
            self.run(events).live == self.live,
            self.run(events).capacity == self.capacity,
            self.run(events).timeout == self.timeout,
        decreases events.len(),
    {
        if events.len() > 0 {
            self.lemma_run_keeps_start(events.drop_last());
        }
    }

    /// A cycle never goes back: its rank does not rise.
    pub proof fn lemma_run_keeps_direction(self, events: Seq<CycleEvent>)
        ensures
            self.run(events).rank() <= self.rank(),
        decreases events.len(),
    {
        if events.len() > 0 {
            self.lemma_run_keeps_direction(events.drop_last());
        }
    }

    /// The first failure is the result of the cycle: whichever action it
    /// answers, the cycle ends with its code and asks for nothing more,
    /// whatever comes after.
    pub proof fn lemma_failure_ends_cycle(
        self,
        event: CycleEvent,
        code: RclReturnCode,
        later: Seq<CycleEvent>,
    )
        requires
            self.accepts(event),
            failure_in(event) == Some(code),
        ensures
            self.run(seq![event] + later) == self.fail(code),
            self.fail(code).action() == CycleAction::Return(Err(code)),
    {
        assert(seq![event].drop_last() == Seq::<CycleEvent>::empty());
        assert(self.run(seq![event]) == self.run(Seq::empty()).step(event));
        self.lemma_run_concat(seq![event], later);
        self.fail(code).lemma_finished_stays(later);
    }

    /// While the wait set takes what it is given, the cycle registers the
    /// live entities one after the other: after `taken` successes from the
    /// start, registration stands at the entity of that index.
    pub proof fn lemma_registration_advances(self, taken: nat)
        requires
            self.stage == StageView::Creating,
            taken <= self.live.len(),
        ensures
            self.run(successes(taken + 1)) == self.register_from(taken as int),
        decreases taken,
    {
        let events = successes(taken + 1);
        assert(events.drop_last() == successes(taken));
        if taken == 0 {
            assert(self.run(successes(0)) == self);
        } else {
            self.lemma_registration_advances((taken - 1) as nat);
        }
    }

    /// While the callbacks succeed, the cycle executes the ready entities
    /// one after the other: after the wait has found `ready` and `done`
    /// callbacks have succeeded, dispatch stands at the entity of that index.
    pub proof fn lemma_dispatch_advances(self, ready: ReadyEntities, done: nat)
        requires
            self.stage == StageView::Waiting,
            done <= ready.order().len(),
        ensures
            self.run(seq![CycleEvent::Woke(Ok(ready))] + successes(done)) == self.dispatch_from(
                ready.order(),
                done as int,
            ),
        decreases done,
    {
        let woken = seq![CycleEvent::Woke(Ok(ready))];
        let events = woken + successes(done);
        if done == 0 {
            assert(events == woken);
            assert(woken.drop_last() == Seq::<CycleEvent>::empty());
            assert(self.run(woken) == self.run(Seq::empty()).step(CycleEvent::Woke(Ok(ready))));
        } else {
            assert(events.drop_last() == woken + successes((done - 1) as nat));
            self.lemma_dispatch_advances(ready, (done - 1) as nat);
        }
    }
}

/// A cycle puts every live entity into its wait set, and nothing else: on
/// a snapshot of `a` subscriptions, `b` clients and `c` services it makes a
/// wait set of exactly these sizes, registers `a + b + c` entities, each
/// live entity once and in order, and then waits.
pub proof fn lemma_registers_every_live_entity(live: LiveEntities, timeout: Option<Duration>)
    ensures
        live.order().len() == live.subscriptions@.len() + live.clients@.len()
            + live.services@.len(),
        live.spec_capacity().subscriptions == live.subscriptions@.len(),
        live.spec_capacity().clients == live.clients@.len(),
        live.spec_capacity().services == live.services@.len(),
        CycleView::start(live, timeout).actions(successes(live.order().len() + 1)) == seq![
            CycleAction::CreateWaitSet(live.spec_capacity()),
        ] + live.order().map_values(|entity: Entity| CycleAction::Register(entity)) + seq![
            CycleAction::Wait(timeout),
        ],
{
    let begin = CycleView::start(live, timeout);
    let count = live.order().len();
    let events = successes(count + 1);
    let issued = begin.actions(events);
    let expected = seq![CycleAction::CreateWaitSet(live.spec_capacity())]
        + live.order().map_values(|entity: Entity| CycleAction::Register(entity)) + seq![
        CycleAction::Wait(timeout),
    ];
    assert(issued.len() == expected.len());
    assert forall|i: int| 0 <= i < issued.len() implies issued[i] == expected[i] by {
        if i == 0 {
            assert(events.take(0) == Seq::<CycleEvent>::empty());
        } else {
            assert(events.take(i) == successes(i as nat));
            begin.lemma_registration_advances((i - 1) as nat);
        }
    }
    assert(issued == expected);
}

/// When the callback of a ready entity fails, the cycle returns its code
/// and executes no entity that comes after it: the entities before it were
/// executed in order, subscriptions first, then clients, then services, and
/// after the failure the cycle only returns.
pub proof fn lemma_failed_callback_ends_dispatch(
    cycle: CycleView,
    ready: ReadyEntities,
    failing: nat,
    code: RclReturnCode,
    later: Seq<CycleEvent>,
)
    requires
        cycle.stage == StageView::Waiting,
        failing < ready.order().len(),
    ensures
        forall|done: nat|
            done <= failing ==> (#[trigger] cycle.run(
                seq![CycleEvent::Woke(Ok(ready))] + successes(done),
            )).action() == CycleAction::Execute(ready.order()[done as int]),
        cycle.run(
            seq![CycleEvent::Woke(Ok(ready))] + successes(failing) + seq![
                CycleEvent::Done(Err(code)),
            ] + later,
        ).action() == CycleAction::Return(Err(code)),
{
    let woken = seq![CycleEvent::Woke(Ok(ready))];
    assert forall|done: nat| done <= failing implies (#[trigger] cycle.run(
        woken + successes(done),
    )).action() == CycleAction::Execute(ready.order()[done as int]) by {
        cycle.lemma_dispatch_advances(ready, done);
    }
    cycle.lemma_dispatch_advances(ready, failing);
    let reached = cycle.run(woken + successes(failing));
    let failure = CycleEvent::Done(Err(code));
    reached.lemma_failure_ends_cycle(failure, code, later);
    cycle.lemma_run_concat(woken + successes(failing), seq![failure] + later);
    assert(woken + successes(failing) + seq![failure] + later == (woken + successes(failing)) + (
    seq![failure] + later));
}

/// A cycle blocks in one place only: it waits with the timeout that it was
/// started with, and once the wait has answered it never waits again.
pub proof fn lemma_waits_once_with_its_timeout(
    live: LiveEntities,
    timeout: Option<Duration>,
    events: Seq<CycleEvent>,
    answered: int,
    later: int,
)
    requires
        0 <= answered < later <= events.len(),
        CycleView::start(live, timeout).run(events.take(answered)).action() is Wait,
        events[answered] is Woke,
    ensures
        CycleView::start(live, timeout).run(events.take(answered)).action() == CycleAction::Wait(
            timeout,
        ),
        !(CycleView::start(live, timeout).run(events.take(later)).action() is Wait),
{
    let begin = CycleView::start(live, timeout);
    let waiting = begin.run(events.take(answered));
    begin.lemma_run_keeps_start(events.take(answered));
    let woken = events.take(answered + 1);
    assert(woken.drop_last() == events.take(answered));
    assert(begin.run(woken) == waiting.step(events[answered]));
    let rest = events.subrange(answered + 1, later);
    assert(events.take(later) == woken + rest);
    begin.lemma_run_concat(woken, rest);
    begin.run(woken).lemma_run_keeps_direction(rest);
}

/// A cycle in which nothing fails executes every ready entity and returns
/// `Ok(())`.
pub proof fn lemma_full_cycle_succeeds(
    live: LiveEntities,
    timeout: Option<Duration>,
    ready: ReadyEntities,
)
    ensures
        CycleView::start(live, timeout).run(
            successes(live.order().len() + 1) + seq![CycleEvent::Woke(Ok(ready))] + successes(
                ready.order().len(),
            ),
        ).action() == CycleAction::Return(Ok(())),
{
    let begin = CycleView::start(live, timeout);
    let registering = successes(live.order().len() + 1);
    let dispatching = seq![CycleEvent::Woke(Ok(ready))] + successes(ready.order().len());
    begin.lemma_registration_advances(live.order().len());
    begin.run(registering).lemma_dispatch_advances(ready, ready.order().len());
    begin.lemma_run_concat(registering, dispatching);
    assert(registering + seq![CycleEvent::Woke(Ok(ready))] + successes(ready.order().len())
        == registering + dispatching);
}

} // verus!

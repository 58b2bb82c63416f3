use crate::cycle::{CycleAction, CycleEvent};
use crate::entity::{Entity, LiveEntities, ReadyEntities, WaitSetCapacity};
use crate::error::RclReturnCode;
use std::time::Duration;
use vstd::prelude::*;

verus! {

/// What a readiness cycle needs of a node and of the middleware behind it.
///
/// Nothing is promised of an implementation: a cycle is verified for every
/// answer that these calls can give.
pub trait Middleware {
    /// A snapshot of the subscriptions, clients and services that are alive.
    fn live_entities(&self) -> LiveEntities;

    /// Makes the wait set of one cycle, with the given sizes.
    fn create_wait_set(&self, capacity: WaitSetCapacity) -> Result<(), RclReturnCode>;

    /// Adds an entity to the wait set.
    fn register(&self, entity: Entity) -> Result<(), RclReturnCode>;

    /// Blocks until an entity of the wait set is ready or the timeout has
    /// passed; without a timeout, until an entity is ready.
    fn wait(&self, timeout: Option<Duration>) -> Result<ReadyEntities, RclReturnCode>;

    /// Runs the callback of a ready entity.
    fn execute(&self, entity: Entity) -> Result<(), RclReturnCode>;
}

/// `event` is what `node` gave back when it was asked for `action`.
pub open spec fn answered<M: Middleware>(node: &M, action: CycleAction, event: CycleEvent) -> bool {
    match (action, event) {
        (CycleAction::CreateWaitSet(capacity), CycleEvent::Done(outcome)) => call_ensures(
            M::create_wait_set,
            (node, capacity),
            outcome,
        ),
        (CycleAction::Register(entity), CycleEvent::Done(outcome)) => call_ensures(
            M::register,
            (node, entity),
            outcome,
        ),
        (CycleAction::Wait(timeout), CycleEvent::Woke(outcome)) => call_ensures(
            M::wait,
            (node, timeout),
            outcome,
        ),
        (CycleAction::Execute(entity), CycleEvent::Done(outcome)) => call_ensures(
            M::execute,
            (node, entity),
            outcome,
        ),
        _ => false,
    }
}

} // verus!

use rclrs::{
    Cycle, CycleAction, CycleEvent, Entity, EntityKind, LiveEntities, RclReturnCode,
    ReadyEntities, WaitSetCapacity,
};
use std::time::Duration;

fn live() -> LiveEntities {
    LiveEntities { subscriptions: vec![7], clients: vec![], services: vec![8, 9] }
}

fn done() -> CycleEvent {
    CycleEvent::Done(Ok(()))
}

fn woke(subscriptions: Vec<u64>, clients: Vec<u64>, services: Vec<u64>) -> CycleEvent {
    CycleEvent::Woke(Ok(ReadyEntities { subscriptions, clients, services }))
}

#[test]
fn cycle_begins_with_a_wait_set_of_the_live_counts() {
    let cycle = Cycle::start(&live(), None);
    assert_eq!(
        cycle.action(),
        CycleAction::CreateWaitSet(WaitSetCapacity {
            subscriptions: 1,
            guard_conditions: 0,
            timers: 0,
            clients: 0,
            services: 2,
            events: 0,
        })
    );
}

#[test]
fn cycle_walks_through_registration_wait_and_dispatch() {
    let timeout = Some(Duration::from_millis(5));
    let mut cycle = Cycle::start(&live(), timeout);
    cycle = cycle.step(done());
    assert_eq!(
        cycle.action(),
        CycleAction::Register(Entity { kind: EntityKind::Subscription, handle: 7 })
    );
    cycle = cycle.step(done());
    assert_eq!(
        cycle.action(),
        CycleAction::Register(Entity { kind: EntityKind::Service, handle: 8 })
    );
    cycle = cycle.step(done());
    assert_eq!(
        cycle.action(),
        CycleAction::Register(Entity { kind: EntityKind::Service, handle: 9 })
    );
    cycle = cycle.step(done());
    assert_eq!(cycle.action(), CycleAction::Wait(timeout));
    cycle = cycle.step(woke(vec![7], vec![], vec![9]));
    assert_eq!(
        cycle.action(),
        CycleAction::Execute(Entity { kind: EntityKind::Subscription, handle: 7 })
    );
    cycle = cycle.step(done());
    assert_eq!(
        cycle.action(),
        CycleAction::Execute(Entity { kind: EntityKind::Service, handle: 9 })
    );
    cycle = cycle.step(done());
    assert_eq!(cycle.action(), CycleAction::Return(Ok(())));
}

#[test]
fn cycle_ignores_an_event_that_answers_nothing() {
    let mut cycle = Cycle::start(&live(), None);
    cycle = cycle.step(woke(vec![7], vec![], vec![]));
    assert!(matches!(cycle.action(), CycleAction::CreateWaitSet(_)));
    for _ in 0..4 {
        cycle = cycle.step(done());
    }
    assert_eq!(cycle.action(), CycleAction::Wait(None));
    cycle = cycle.step(done());
    assert_eq!(cycle.action(), CycleAction::Wait(None));
    cycle = cycle.step(CycleEvent::Done(Err(RclReturnCode::Error)));
    assert_eq!(cycle.action(), CycleAction::Wait(None));
}

#[test]
fn finished_cycle_stays_finished() {
    let mut cycle = Cycle::start(&live(), None);
    cycle = cycle.step(CycleEvent::Done(Err(RclReturnCode::NodeInvalid)));
    assert_eq!(cycle.action(), CycleAction::Return(Err(RclReturnCode::NodeInvalid)));
    cycle = cycle.step(done());
    cycle = cycle.step(woke(vec![7], vec![], vec![]));
    cycle = cycle.step(CycleEvent::Done(Err(RclReturnCode::Timeout)));
    assert_eq!(cycle.action(), CycleAction::Return(Err(RclReturnCode::NodeInvalid)));
}

#[test]
fn failure_at_entity_two_of_four_skips_the_rest() {
    let mut cycle = Cycle::start(&live(), None);
    for _ in 0..4 {
        cycle = cycle.step(done());
    }
    cycle = cycle.step(woke(vec![1, 2], vec![3], vec![4]));
    cycle = cycle.step(done());
    assert_eq!(
        cycle.action(),
        CycleAction::Execute(Entity { kind: EntityKind::Subscription, handle: 2 })
    );
    cycle = cycle.step(CycleEvent::Done(Err(RclReturnCode::SubscriptionInvalid)));
    assert_eq!(cycle.action(), CycleAction::Return(Err(RclReturnCode::SubscriptionInvalid)));
    cycle = cycle.step(done());
    assert_eq!(cycle.action(), CycleAction::Return(Err(RclReturnCode::SubscriptionInvalid)));
}

#[test]
fn live_entities_come_in_order_of_kind() {
    let order = LiveEntities { subscriptions: vec![3, 1], clients: vec![2], services: vec![0] }
        .in_order();
    assert_eq!(
        order,
        vec![
            Entity { kind: EntityKind::Subscription, handle: 3 },
            Entity { kind: EntityKind::Subscription, handle: 1 },
            Entity { kind: EntityKind::Client, handle: 2 },
            Entity { kind: EntityKind::Service, handle: 0 },
        ]
    );
}

#[test]
fn ready_entities_come_in_order_of_kind() {
    let order = ReadyEntities { subscriptions: vec![], clients: vec![5, 5], services: vec![6] }
        .in_order();
    assert_eq!(
        order,
        vec![
            Entity { kind: EntityKind::Client, handle: 5 },
            Entity { kind: EntityKind::Client, handle: 5 },
            Entity { kind: EntityKind::Service, handle: 6 },
        ]
    );
}

#[test]
fn capacity_counts_only_the_three_kinds() {
    let live = LiveEntities { subscriptions: vec![1, 2, 3], clients: vec![], services: vec![4] };
    let capacity = live.capacity();
    assert_eq!(capacity.subscriptions, 3);
    assert_eq!(capacity.guard_conditions, 0);
    assert_eq!(capacity.timers, 0);
    assert_eq!(capacity.clients, 0);
    assert_eq!(capacity.services, 1);
    assert_eq!(capacity.events, 0);
}

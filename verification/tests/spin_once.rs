use rclrs::{
    spin_once, CycleAction, Entity, EntityKind, LiveEntities, Middleware, RclReturnCode,
    ReadyEntities, WaitSetCapacity,
};
use std::cell::RefCell;
use std::time::Duration;

/// A node whose answers are fixed in advance and which records what it is asked.
struct Scripted {
    live: LiveEntities,
    ready: Result<ReadyEntities, RclReturnCode>,
    create: Result<(), RclReturnCode>,
    refused: Option<(Entity, RclReturnCode)>,
    failing: Option<(Entity, RclReturnCode)>,
    asked: RefCell<Vec<CycleAction>>,
}

impl Scripted {
    fn new(live: LiveEntities, ready: Result<ReadyEntities, RclReturnCode>) -> Self {
        Scripted {
            live,
            ready,
            create: Ok(()),
            refused: None,
            failing: None,
            asked: RefCell::new(Vec::new()),
        }
    }
}

impl Middleware for Scripted {
    fn live_entities(&self) -> LiveEntities {
        self.live.clone()
    }

    fn create_wait_set(&self, capacity: WaitSetCapacity) -> Result<(), RclReturnCode> {
        self.asked.borrow_mut().push(CycleAction::CreateWaitSet(capacity));
        self.create
    }

    fn register(&self, entity: Entity) -> Result<(), RclReturnCode> {
        self.asked.borrow_mut().push(CycleAction::Register(entity));
        match self.refused {
            Some((refused, code)) if refused == entity => Err(code),
            _ => Ok(()),
        }
    }

    fn wait(&self, timeout: Option<Duration>) -> Result<ReadyEntities, RclReturnCode> {
        self.asked.borrow_mut().push(CycleAction::Wait(timeout));
        self.ready.clone()
    }

    fn execute(&self, entity: Entity) -> Result<(), RclReturnCode> {
        self.asked.borrow_mut().push(CycleAction::Execute(entity));
        match self.failing {
            Some((failing, code)) if failing == entity => Err(code),
            _ => Ok(()),
        }
    }
}

fn subscription(handle: u64) -> Entity {
    Entity { kind: EntityKind::Subscription, handle }
}

fn client(handle: u64) -> Entity {
    Entity { kind: EntityKind::Client, handle }
}

fn service(handle: u64) -> Entity {
    Entity { kind: EntityKind::Service, handle }
}

fn capacity(subscriptions: usize, clients: usize, services: usize) -> WaitSetCapacity {
    WaitSetCapacity { subscriptions, guard_conditions: 0, timers: 0, clients, services, events: 0 }
}

fn registrations(asked: &[CycleAction]) -> usize {
    asked.iter().filter(|action| matches!(action, CycleAction::Register(_))).count()
}

fn busy_node() -> Scripted {
    Scripted::new(
        LiveEntities { subscriptions: vec![1, 2], clients: vec![3, 4], services: vec![5] },
        Ok(ReadyEntities { subscriptions: vec![2, 1], clients: vec![4], services: vec![5] }),
    )
}

#[test]
fn one_ready_subscription_runs_alone() {
    let node = Scripted::new(
        LiveEntities { subscriptions: vec![10, 11], clients: vec![20], services: vec![] },
        Ok(ReadyEntities { subscriptions: vec![11], clients: vec![], services: vec![] }),
    );
    assert_eq!(spin_once(&node, None), Ok(()));
    let asked = node.asked.into_inner();
    assert_eq!(
        asked,
        vec![
            CycleAction::CreateWaitSet(capacity(2, 1, 0)),
            CycleAction::Register(subscription(10)),
            CycleAction::Register(subscription(11)),
            CycleAction::Register(client(20)),
            CycleAction::Wait(None),
            CycleAction::Execute(subscription(11)),
        ]
    );
}

#[test]
fn zero_timeout_without_entities_times_out() {
    let node = Scripted::new(
        LiveEntities { subscriptions: vec![], clients: vec![], services: vec![] },
        Err(RclReturnCode::Timeout),
    );
    assert_eq!(spin_once(&node, Some(Duration::from_secs(0))), Err(RclReturnCode::Timeout));
    let asked = node.asked.into_inner();
    assert_eq!(
        asked,
        vec![
            CycleAction::CreateWaitSet(capacity(0, 0, 0)),
            CycleAction::Wait(Some(Duration::from_secs(0))),
        ]
    );
}

#[test]
fn wait_set_holds_every_live_entity() {
    let node = busy_node();
    assert_eq!(spin_once(&node, Some(Duration::from_millis(250))), Ok(()));
    let asked = node.asked.into_inner();
    assert_eq!(asked[0], CycleAction::CreateWaitSet(capacity(2, 2, 1)));
    assert_eq!(registrations(&asked), 5);
    assert_eq!(
        asked[1..6],
        [
            CycleAction::Register(subscription(1)),
            CycleAction::Register(subscription(2)),
            CycleAction::Register(client(3)),
            CycleAction::Register(client(4)),
            CycleAction::Register(service(5)),
        ]
    );
    assert_eq!(asked[6], CycleAction::Wait(Some(Duration::from_millis(250))));
}

#[test]
fn ready_entities_run_by_kind_in_the_order_of_the_wait() {
    let node = busy_node();
    assert_eq!(spin_once(&node, None), Ok(()));
    let asked = node.asked.into_inner();
    assert_eq!(
        asked[7..],
        [
            CycleAction::Execute(subscription(2)),
            CycleAction::Execute(subscription(1)),
            CycleAction::Execute(client(4)),
            CycleAction::Execute(service(5)),
        ]
    );
}

#[test]
fn failed_callback_stops_the_dispatch() {
    let mut node = busy_node();
    node.failing = Some((subscription(1), RclReturnCode::SubscriptionTakeFailed));
    assert_eq!(spin_once(&node, None), Err(RclReturnCode::SubscriptionTakeFailed));
    let asked = node.asked.into_inner();
    assert_eq!(
        asked[7..],
        [CycleAction::Execute(subscription(2)), CycleAction::Execute(subscription(1))]
    );
}

#[test]
fn failed_client_callback_leaves_services_alone() {
    let mut node = busy_node();
    node.failing = Some((client(4), RclReturnCode::ClientTakeFailed));
    assert_eq!(spin_once(&node, None), Err(RclReturnCode::ClientTakeFailed));
    let asked = node.asked.into_inner();
    assert_eq!(asked.len(), 10);
    assert_eq!(asked[9], CycleAction::Execute(client(4)));
}

#[test]
fn failed_service_callback_is_returned() {
    let mut node = busy_node();
    node.failing = Some((service(5), RclReturnCode::ServiceTakeFailed));
    assert_eq!(spin_once(&node, None), Err(RclReturnCode::ServiceTakeFailed));
    assert_eq!(node.asked.into_inner().len(), 11);
}

#[test]
fn failed_wait_set_creation_is_returned_at_once() {
    let mut node = busy_node();
    node.create = Err(RclReturnCode::BadAlloc);
    assert_eq!(spin_once(&node, None), Err(RclReturnCode::BadAlloc));
    assert_eq!(node.asked.into_inner(), vec![CycleAction::CreateWaitSet(capacity(2, 2, 1))]);
}

#[test]
fn failed_registration_is_returned_at_once() {
    let mut node = busy_node();
    node.refused = Some((client(3), RclReturnCode::WaitSetFull));
    assert_eq!(spin_once(&node, None), Err(RclReturnCode::WaitSetFull));
    let asked = node.asked.into_inner();
    assert_eq!(asked.len(), 4);
    assert_eq!(asked[3], CycleAction::Register(client(3)));
}

#[test]
fn failed_wait_runs_no_callback() {
    let mut node = busy_node();
    node.ready = Err(RclReturnCode::WaitSetInvalid);
    assert_eq!(spin_once(&node, None), Err(RclReturnCode::WaitSetInvalid));
    let asked = node.asked.into_inner();
    assert_eq!(asked.len(), 7);
    assert_eq!(asked[6], CycleAction::Wait(None));
}

#[test]
fn nothing_ready_is_a_successful_cycle() {
    let mut node = busy_node();
    node.ready = Ok(ReadyEntities { subscriptions: vec![], clients: vec![], services: vec![] });
    assert_eq!(spin_once(&node, None), Ok(()));
    assert_eq!(node.asked.into_inner().len(), 7);
}

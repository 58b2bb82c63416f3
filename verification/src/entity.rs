use vstd::prelude::*;

verus! {

/// The kinds of communication endpoint that a node owns.
#[derive(Clone, Copy, Debug, PartialEq, Eq, Structural)]
pub enum EntityKind {
    Subscription,
    Client,
    Service,
}

/// One endpoint: its kind, and the handle under which its node knows it.
#[derive(Clone, Copy, Debug, PartialEq, Eq, Structural)]
pub struct Entity {
    pub kind: EntityKind,
    pub handle: u64,
}

/// The sizes a wait set is made with, one per kind of waitable.
#[derive(Clone, Copy, Debug, PartialEq, Eq, Structural)]
pub struct WaitSetCapacity {
    pub subscriptions: usize,
    pub guard_conditions: usize,
    pub timers: usize,
    pub clients: usize,
    pub services: usize,
    pub events: usize,
}

/// The handles `handles`, each as an entity of kind `kind`, in the same order.
pub open spec fn tagged(kind: EntityKind, handles: Seq<u64>) -> Seq<Entity> {
    Seq::new(handles.len(), |i: int| Entity { kind, handle: handles[i] })
}

/// The order in which the entities of a cycle are taken: subscriptions
/// first, then clients, then services, each group in its given order.
pub open spec fn in_order(subscriptions: Seq<u64>, clients: Seq<u64>, services: Seq<u64>) -> Seq<
    Entity,
> {
    tagged(EntityKind::Subscription, subscriptions) + tagged(EntityKind::Client, clients) + tagged(
        EntityKind::Service,
        services,
    )
}

/// A snapshot of the endpoints of a node that are alive.
#[derive(Clone, Debug, PartialEq, Eq)]
pub struct LiveEntities {
    pub subscriptions: Vec<u64>,
    pub clients: Vec<u64>,
    pub services: Vec<u64>,
}

/// What a wait found ready: for each kind the handles, in the order in which
/// the wait gave them.
#[derive(Clone, Debug, PartialEq, Eq)]
pub struct ReadyEntities {
    pub subscriptions: Vec<u64>,
    pub clients: Vec<u64>,
    pub services: Vec<u64>,
}

fn append_tagged(out: &mut Vec<Entity>, kind: EntityKind, handles: &Vec<u64>)
    ensures
        final(out)@ == old(out)@ + tagged(kind, handles@),
{
    let mut i: usize = 0;
    while i < handles.len()
        invariant
            i <= handles.len(),
            out@ == old(out)@ + tagged(kind, handles@.take(i as int)),
        decreases handles.len() - i,
    {
        out.push(Entity { kind, handle: handles[i] });
        proof {
            assert(out@ =~= old(out)@ + tagged(kind, handles@.take(i + 1)));
        }
        i += 1;
    }
    proof {
        assert(handles@.take(i as int) =~= handles@);
    }
}

fn sequence(subscriptions: &Vec<u64>, clients: &Vec<u64>, services: &Vec<u64>) -> (out: Vec<Entity>)
    ensures
        out@ == in_order(subscriptions@, clients@, services@),
{
    let mut out: Vec<Entity> = Vec::new();
    append_tagged(&mut out, EntityKind::Subscription, subscriptions);
    append_tagged(&mut out, EntityKind::Client, clients);
    append_tagged(&mut out, EntityKind::Service, services);
    proof {
        assert(out@ =~= in_order(subscriptions@, clients@, services@));
    }
    out
}

impl LiveEntities {
    /// The entities of the snapshot in the order in which a cycle registers them.
    pub open spec fn order(&self) -> Seq<Entity> {
        in_order(self.subscriptions@, self.clients@, self.services@)
    }

    /// The sizes of a wait set that holds exactly this snapshot: one slot for
    /// each subscription, client and service, and none of any other kind.
    pub open spec fn spec_capacity(&self) -> WaitSetCapacity {
        WaitSetCapacity {
            subscriptions: self.subscriptions.len(),
            guard_conditions: 0,
            timers: 0,
            clients: self.clients.len(),
            services: self.services.len(),
            events: 0,
        }
    }

    pub fn capacity(&self) -> (c: WaitSetCapacity)
        ensures
            c == self.spec_capacity(),
    {
        WaitSetCapacity {
            subscriptions: self.subscriptions.len(),
            guard_conditions: 0,
            timers: 0,
            clients: self.clients.len(),
            services: self.services.len(),
            events: 0,
        }
    }

    pub fn in_order(&self) -> (out: Vec<Entity>)
        ensures
            out@ == self.order(),
    {
        sequence(&self.subscriptions, &self.clients, &self.services)
    }
}

impl ReadyEntities {
    /// The ready entities in the order in which a cycle executes them.
    pub open spec fn order(&self) -> Seq<Entity> {
        in_order(self.subscriptions@, self.clients@, self.services@)
    }

    pub fn in_order(&self) -> (out: Vec<Entity>)
        ensures
            out@ == self.order(),
    {
        sequence(&self.subscriptions, &self.clients, &self.services)
    }
}

} // verus!

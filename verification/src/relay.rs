//! The relay: the one registry and the one bus that all connections share.

use vstd::prelude::*;
use crate::bus::{effective_capacity, BroadcastBus};
use crate::message::MessageView;
use crate::presence::PresenceRegistry;

verus! {

/// The state that connections share. Nothing else is shared between them.
pub struct Relay {
    pub registry: PresenceRegistry,
    pub bus: BroadcastBus,
}

impl Relay {
    pub open spec fn wf(&self) -> bool {
        self.bus.wf()
    }

    /// The identifiers of the connections that are online.
    pub open spec fn online(&self) -> Set<u128> {
        self.registry@
    }

    /// Every event published so far, oldest first.
    pub open spec fn history(&self) -> Seq<MessageView> {
        self.bus.history()
    }

    /// A relay with nobody online and nothing published, whose bus retains
    /// `capacity` events, rounded up to a power of two.
    pub fn new(capacity: usize) -> (relay: Self)
        requires
            0 < capacity <= usize::MAX / 2,
        ensures
            relay.wf(),
            relay.online() == Set::<u128>::empty(),
            relay.history() == Seq::<MessageView>::empty(),
            relay.bus.capacity() == effective_capacity(capacity as nat),
            relay.bus.capacity() >= capacity,
    {
        Relay { registry: PresenceRegistry::new(), bus: BroadcastBus::new(capacity) }
    }

    /// A relay whose bus retains the default backlog.
    pub fn with_default_capacity() -> (relay: Self)
        ensures
            relay.wf(),
            relay.online() == Set::<u128>::empty(),
            relay.history() == Seq::<MessageView>::empty(),
            relay.bus.capacity() == effective_capacity(BroadcastBus::DEFAULT_CAPACITY as nat),
            relay.bus.capacity() >= BroadcastBus::DEFAULT_CAPACITY,
    {
        Relay::new(BroadcastBus::DEFAULT_CAPACITY)
    }
}

} // verus!

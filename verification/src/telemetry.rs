//! Telemetry: a bounded ring of events, and the names of the nodes that show them.
//!
//! Events that are emitted before anybody listens wait in the ring. When it is full, the oldest
//! one makes room and is counted as dropped.

use std::collections::VecDeque;

use vstd::prelude::*;
use vstd::string::*;

use crate::domain::ShardFabricAddr;
use crate::isa::Uid;
use crate::{SessionId, ShardId, WirePartitionId};
use crate::text::{decimal, hyphenated, numbered, push_hyphenated};

verus! {

/// The partition that telemetry is reserved for.
pub const PARTITION_TELEMETRY: u64 = 0xFFFF_FFFF_FFFF_FFFE;

/// Capacity of the ring where none is given.
pub const DEFAULT_RING_CAPACITY: usize = 4_096;

/// Something that happened in the session layer or in the engine.
#[derive(Clone, Debug)]
pub enum TelemetryEvent {
    /// A node's value changed.
    ValueChanged { node: Uid, version: u64 },
    /// An authority gate refused something.
    AuthViolation { node: Uid, reason: String },
    /// The health of a session's stream changed.
    SessionHealthChanged { session_id: SessionId, healthy: bool },
    /// A shard's queue depth was reported.
    ShardPressureChanged { shard_id: ShardId, depth: u32 },
    /// A partition's propagation queue is empty.
    DomainQuiescent { partition_id: WirePartitionId },
    /// A cell of a partition came to rest, or woke up.
    CellQuiescent { cell_id: Uid, partition_id: WirePartitionId, quiescent: bool },
    /// A region of a partition came to rest, or woke up.
    RegionQuiescent {
        region_root: Uid,
        partition_id: WirePartitionId,
        quiescent: bool,
        quiescent_epochs: u32,
    },
    /// A step budget ran out.
    BudgetExhausted { node: Uid, steps_consumed: u32, budget: u32 },
    /// A shard's health changed.
    TopologyHealthChanged { shard_id: ShardId, old_health: i8, new_health: i8 },
    /// A shard's place in the fabric was registered.
    FabricPlacementChanged { shard_id: ShardId, addr: ShardFabricAddr },
}

/// The mathematical content of a [`TelemetryEvent`].
pub enum TelemetryEventView {
    ValueChanged { node: Uid, version: u64 },
    AuthViolation { node: Uid, reason: Seq<char> },
    SessionHealthChanged { session_id: SessionId, healthy: bool },
    ShardPressureChanged { shard_id: ShardId, depth: u32 },
    DomainQuiescent { partition_id: WirePartitionId },
    CellQuiescent { cell_id: Uid, partition_id: WirePartitionId, quiescent: bool },
    RegionQuiescent {
        region_root: Uid,
        partition_id: WirePartitionId,
        quiescent: bool,
        quiescent_epochs: u32,
    },
    BudgetExhausted { node: Uid, steps_consumed: u32, budget: u32 },
    TopologyHealthChanged { shard_id: ShardId, old_health: i8, new_health: i8 },
    FabricPlacementChanged { shard_id: ShardId, addr: ShardFabricAddr },
}

impl View for TelemetryEvent {
    type V = TelemetryEventView;

    open spec fn view(&self) -> TelemetryEventView {
        match *self {
            TelemetryEvent::ValueChanged { node, version } => TelemetryEventView::ValueChanged {
                node,
                version,
            },
            TelemetryEvent::AuthViolation { node, reason } => TelemetryEventView::AuthViolation {
                node,
                reason: reason@,
            },
            TelemetryEvent::SessionHealthChanged {
                session_id,
                healthy,
            } => TelemetryEventView::SessionHealthChanged {
                session_id,
                healthy,
            },
            TelemetryEvent::ShardPressureChanged {
                shard_id,
                depth,
            } => TelemetryEventView::ShardPressureChanged {
                shard_id,
                depth,
            },
            TelemetryEvent::DomainQuiescent {
                partition_id,
            } => TelemetryEventView::DomainQuiescent {
                partition_id,
            },
            TelemetryEvent::CellQuiescent {
                cell_id,
                partition_id,
                quiescent,
            } => TelemetryEventView::CellQuiescent {
                cell_id,
                partition_id,
                quiescent,
            },
            TelemetryEvent::RegionQuiescent {
                region_root,
                partition_id,
                quiescent,
                quiescent_epochs,
            } => TelemetryEventView::RegionQuiescent {
                region_root,
                partition_id,
                quiescent,
                quiescent_epochs,
            },
            TelemetryEvent::BudgetExhausted {
                node,
                steps_consumed,
                budget,
            } => TelemetryEventView::BudgetExhausted {
                node,
                steps_consumed,
                budget,
            },
            TelemetryEvent::TopologyHealthChanged {
                shard_id,
                old_health,
                new_health,
            } => TelemetryEventView::TopologyHealthChanged {
                shard_id,
                old_health,
                new_health,
            },
            TelemetryEvent::FabricPlacementChanged {
                shard_id,
                addr,
            } => TelemetryEventView::FabricPlacementChanged {
                shard_id,
                addr,
            },
        }
    }
}

/// What events say.
pub open spec fn event_views(events: Seq<TelemetryEvent>) -> Seq<TelemetryEventView> {
    events.map_values(|e: TelemetryEvent| e@)
}

/// Builders of node names in the telemetry partition.
pub struct TelemetryNodeName;

impl TelemetryNodeName {
    pub fn node_value(uid: Uid) -> (name: String)
        ensures
            name@ == "node::"@ + hyphenated(uid.0) + "::value"@,
    {
        let mut name = String::from_str("node::");
        push_hyphenated(&mut name, uid.0);
        name.append("::value");
        name
    }

    pub fn session_health(sid: SessionId) -> (name: String)
        ensures
            name@ == "session::"@ + decimal(sid.0 as nat) + "::stream_health"@,
    {
        numbered("session::", sid.0, "::stream_health")
    }

    pub fn shard_pressure(shard: ShardId) -> (name: String)
        ensures
            name@ == "shard::"@ + decimal(shard.0 as nat) + "::pressure"@,
    {
        numbered("shard::", shard.0, "::pressure")
    }

    pub fn domain_quiescent(pid: WirePartitionId) -> (name: String)
        ensures
            name@ == "domain::"@ + decimal(pid.0 as nat) + "::quiescent"@,
    {
        numbered("domain::", pid.0, "::quiescent")
    }

    pub fn topology_health(shard: ShardId) -> (name: String)
        ensures
            name@ == "shard::"@ + decimal(shard.0 as nat) + "::topology_health"@,
    {
        numbered("shard::", shard.0, "::topology_health")
    }

    pub fn locality_radius(shard: ShardId) -> (name: String)
        ensures
            name@ == "shard::"@ + decimal(shard.0 as nat) + "::locality_radius"@,
    {
        numbered("shard::", shard.0, "::locality_radius")
    }

    pub fn placement_coords(shard: ShardId) -> (name: String)
        ensures
            name@ == "shard::"@ + decimal(shard.0 as nat) + "::placement_coords"@,
    {
        numbered("shard::", shard.0, "::placement_coords")
    }

    pub fn auth_violations() -> (name: String)
        ensures
            name@ == "auth::violations"@,
    {
        "auth::violations".to_owned()
    }
}

/// The contents of a [`TelemetryPartition`].
pub struct Ring {
    pub events: Seq<TelemetryEventView>,
    pub capacity: usize,
    pub dropped: u64,
}

/// The ring after one more event. A full ring gives up its oldest event and counts it, as far
/// as a `u64` counts.
pub open spec fn emitted(ring: Ring, event: TelemetryEventView) -> Ring {
    if ring.events.len() >= ring.capacity {
        Ring {
            events: (if ring.events.len() > 0 {
                ring.events.drop_first()
            } else {
                ring.events
            }).push(event),
            dropped: if ring.dropped < u64::MAX {
                (ring.dropped + 1) as u64
            } else {
                u64::MAX
            },
            ..ring
        }
    } else {
        Ring { events: ring.events.push(event), ..ring }
    }
}

/// The ring after several more events, one after the other.
pub open spec fn emitted_all(ring: Ring, events: Seq<TelemetryEventView>) -> Ring
    decreases events.len(),
{
    if events.len() == 0 {
        ring
    } else {
        emitted(emitted_all(ring, events.drop_last()), events.last())
    }
}

/// The waiting events, and how many of them there may be.
#[derive(Debug)]
pub struct EventRing {
    buffer: VecDeque<TelemetryEvent>,
    capacity: usize,
}

impl EventRing {
    pub closed spec fn events(&self) -> Seq<TelemetryEventView> {
        event_views(self.buffer@)
    }

    pub closed spec fn capacity(&self) -> usize {
        self.capacity
    }
}

/// Events that wait for a subscriber.
#[derive(Debug)]
pub struct TelemetryPartition {
    pub ring: EventRing,
    /// Events dropped since the last drain.
    pub dropped: u64,
}

impl View for TelemetryPartition {
    type V = Ring;

    open spec fn view(&self) -> Ring {
        Ring {
            events: self.ring.events(),
            capacity: self.ring.capacity(),
            dropped: self.dropped,
        }
    }
}

impl Default for TelemetryPartition {
    fn default() -> (telemetry: Self)
        ensures
            telemetry@ == (Ring {
                events: Seq::empty(),
                capacity: DEFAULT_RING_CAPACITY,
                dropped: 0,
            }),
    {
        TelemetryPartition::new(DEFAULT_RING_CAPACITY)
    }
}

impl TelemetryPartition {
    pub fn new(capacity: usize) -> (telemetry: Self)
        ensures
            telemetry@ == (Ring { events: Seq::empty(), capacity, dropped: 0 }),
    {
        let telemetry = TelemetryPartition {
            ring: EventRing { buffer: VecDeque::new(), capacity },
            dropped: 0,
        };
        assert(telemetry@.events =~= Seq::empty());
        telemetry
    }

    /// Emits an event. In a full ring it takes the place of the oldest one.
    pub fn emit(&mut self, event: TelemetryEvent)
        ensures
            final(self)@ == emitted(old(self)@, event@),
    {
        let ghost before = self@.events;
        if self.ring.buffer.len() >= self.ring.capacity {
            let _ = self.ring.buffer.pop_front();
            self.dropped = self.dropped.saturating_add(1);
            assert(event_views(self.ring.buffer@) =~= (if before.len() > 0 {
                before.drop_first()
            } else {
                before
            }));
        }
        let ghost kept = event_views(self.ring.buffer@);
        self.ring.buffer.push_back(event);
        assert(event_views(self.ring.buffer@) =~= kept.push(event@));
    }

    /// Takes all events out, in the order of their emission, and starts counting drops anew.
    pub fn drain(&mut self) -> (events: Vec<TelemetryEvent>)
        ensures
            event_views(events@) == old(self)@.events,
            final(self)@ == (Ring { events: Seq::empty(), dropped: 0, ..old(self)@ }),
    {
        self.dropped = 0;
        let mut events: Vec<TelemetryEvent> = Vec::new();
        let ghost all = self.ring.buffer@;
        assert(events@ + self.ring.buffer@ =~= all);
        while self.ring.buffer.len() > 0
            invariant
                events@ + self.ring.buffer@ == all,
                self.ring.capacity == old(self).ring.capacity,
                self.dropped == 0,
            decreases self.ring.buffer@.len(),
        {
            if let Some(event) = self.ring.buffer.pop_front() {
                events.push(event);
            }
            assert(events@ + self.ring.buffer@ =~= all);
        }
        assert(events@ =~= all);
        assert(self@.events =~= Seq::empty());
        events
    }

    /// The waiting events, which stay.
    pub fn peek(&self) -> (events: Vec<&TelemetryEvent>)
        ensures
            events@.map_values(|e: &TelemetryEvent| e@) == self@.events,
    {
        let n: usize = self.ring.buffer.len();
        let mut events: Vec<&TelemetryEvent> = Vec::new();
        let mut i: usize = 0;
        while i < n
            invariant
                i <= n == self.ring.buffer@.len(),
                events@.len() == i,
                forall|j: int| 0 <= j < i ==> *(#[trigger] events@[j]) == self.ring.buffer@[j],
            decreases n - i,
        {
            events.push(&self.ring.buffer[i]);
            i = i + 1;
        }
        assert(events@.map_values(|e: &TelemetryEvent| e@) =~= self@.events);
        events
    }

    pub fn len(&self) -> (n: usize)
        ensures
            n == self@.events.len(),
    {
        self.ring.buffer.len()
    }

    pub fn is_empty(&self) -> (empty: bool)
        ensures
            empty == (self@.events.len() == 0),
    {
        self.ring.buffer.len() == 0
    }
}

/// A ring that holds no more than it can never comes to hold more, whatever is emitted; the
/// latest event is always in it.
pub proof fn law_ring_is_bounded(ring: Ring, event: TelemetryEventView)
    requires
        ring.events.len() <= ring.capacity,
        ring.capacity > 0,
    ensures
        emitted(ring, event).events.len() <= ring.capacity,
        emitted(ring, event).capacity == ring.capacity,
        emitted(ring, event).events.last() == event,
{
}

/// No event is lost without being counted: what was there and what came is what is there and
/// what was dropped.
pub proof fn law_drops_are_counted(ring: Ring, event: TelemetryEventView)
    requires
        ring.events.len() > 0 || ring.capacity > 0,
        ring.dropped < u64::MAX,
    ensures
        ring.events.len() + 1 + ring.dropped == emitted(ring, event).events.len() + emitted(
            ring,
            event,
        ).dropped,
{
}

/// Up to the capacity, events stay in the order in which they were emitted.
pub proof fn law_emission_order(ring: Ring, events: Seq<TelemetryEventView>)
    requires
        ring.events.len() + events.len() <= ring.capacity,
    ensures
        emitted_all(ring, events) == (Ring { events: ring.events + events, ..ring }),
    decreases events.len(),
{
    if events.len() > 0 {
        law_emission_order(ring, events.drop_last());
        assert(ring.events + events =~= (ring.events + events.drop_last()).push(events.last()));
    } else {
        assert(ring.events + events =~= ring.events);
    }
}

} // verus!

//! The message bus of the simulation.

use vstd::prelude::*;

use crate::admission::ShardPressure;
use crate::ShardId;
use crate::sim::faults::{FaultPolicy, Faults, no_faults};

verus! {

/// A message in flight.
#[derive(Clone, Copy, Debug, PartialEq, Eq, Structural)]
pub enum PendingMsg {
    /// `src` tells `dst` its pressure.
    TopologyGossip { src: ShardId, dst: ShardId, pressure: ShardPressure, deliver_at: u64 },
}

impl PendingMsg {
    /// The tick on which the message is due.
    #[verifier::allow_in_spec]
    pub fn deliver_at(&self) -> u64
        returns
            (match *self {
                PendingMsg::TopologyGossip { deliver_at, .. } => deliver_at,
            }),
    {
        match self {
            PendingMsg::TopologyGossip { deliver_at, .. } => *deliver_at,
        }
    }
}

/// The messages that are due at `tick`, in the order in which they were sent.
pub open spec fn due_at(msgs: Seq<PendingMsg>, tick: u64) -> Seq<PendingMsg>
    decreases msgs.len(),
{
    if msgs.len() == 0 {
        Seq::empty()
    } else if msgs.last().deliver_at() <= tick {
        due_at(msgs.drop_last(), tick).push(msgs.last())
    } else {
        due_at(msgs.drop_last(), tick)
    }
}

/// The messages that are not due at `tick`, in the order in which they were sent.
pub open spec fn not_due_at(msgs: Seq<PendingMsg>, tick: u64) -> Seq<PendingMsg>
    decreases msgs.len(),
{
    if msgs.len() == 0 {
        Seq::empty()
    } else if msgs.last().deliver_at() <= tick {
        not_due_at(msgs.drop_last(), tick)
    } else {
        not_due_at(msgs.drop_last(), tick).push(msgs.last())
    }
}

/// The bus, with the messages in flight and the faults that befall them.
pub struct SimNetwork {
    pub pending: Vec<PendingMsg>,
    pub faults: FaultPolicy,
}

/// The mathematical content of a [`SimNetwork`].
pub struct NetworkView {
    pub pending: Seq<PendingMsg>,
    pub faults: Faults,
}

impl View for SimNetwork {
    type V = NetworkView;

    open spec fn view(&self) -> NetworkView {
        NetworkView { pending: self.pending@, faults: self.faults@ }
    }
}

impl SimNetwork {
    pub fn new() -> (network: Self)
        ensures
            network@ == (NetworkView { pending: Seq::empty(), faults: no_faults() }),
    {
        SimNetwork { pending: Vec::new(), faults: FaultPolicy::default() }
    }

    pub fn enqueue(&mut self, msg: PendingMsg)
        ensures
            final(self)@ == (NetworkView { pending: old(self)@.pending.push(msg), ..old(self)@ }),
    {
        self.pending.push(msg);
    }

    /// Takes out the messages that are due.
    pub fn drain_due(&mut self, current_tick: u64) -> (due: Vec<PendingMsg>)
        ensures
            due@ == due_at(old(self)@.pending, current_tick),
            final(self)@ == (NetworkView {
                pending: not_due_at(old(self)@.pending, current_tick),
                ..old(self)@
            }),
    {
        let mut due: Vec<PendingMsg> = Vec::new();
        let mut remain: Vec<PendingMsg> = Vec::new();
        let mut i: usize = 0;
        while i < self.pending.len()
            invariant
                i <= self.pending@.len(),
                self.pending@ == old(self)@.pending,
                self.faults == old(self).faults,
                due@ == due_at(self.pending@.take(i as int), current_tick),
                remain@ == not_due_at(self.pending@.take(i as int), current_tick),
            decreases self.pending@.len() - i,
        {
            let msg = self.pending[i];
            proof {
                let next = self.pending@.take(i + 1);
                assert(next.drop_last() =~= self.pending@.take(i as int));
                assert(next.last() == msg);
            }
            if msg.deliver_at() <= current_tick {
                due.push(msg);
            } else {
                remain.push(msg);
            }
            i = i + 1;
        }
        assert(self.pending@.take(i as int) =~= self.pending@);
        self.pending = remain;
        due
    }

    pub fn pending_count(&self) -> (n: usize)
        ensures
            n == self@.pending.len(),
    {
        self.pending.len()
    }
}

/// Every message is either due or not, and none gets lost or doubled on the way.
pub proof fn law_every_message_is_due_or_pending(msgs: Seq<PendingMsg>, tick: u64)
    ensures
        due_at(msgs, tick).to_multiset().add(not_due_at(msgs, tick).to_multiset())
            == msgs.to_multiset(),
        forall|i: int| 0 <= i < due_at(msgs, tick).len() ==> (#[trigger] due_at(
            msgs,
            tick,
        )[i]).deliver_at() <= tick,
        forall|i: int| 0 <= i < not_due_at(msgs, tick).len() ==> (#[trigger] not_due_at(
            msgs,
            tick,
        )[i]).deliver_at() > tick,
    decreases msgs.len(),
{
    broadcast use vstd::seq_lib::group_to_multiset_ensures;

    if msgs.len() > 0 {
        let init = msgs.drop_last();
        let last = msgs.last();
        law_every_message_is_due_or_pending(init, tick);
        assert(msgs =~= init.push(last));
        assert(due_at(msgs, tick).to_multiset().add(not_due_at(msgs, tick).to_multiset())
            =~= msgs.to_multiset());
    } else {
        assert(due_at(msgs, tick).to_multiset().add(not_due_at(msgs, tick).to_multiset())
            =~= msgs.to_multiset());
    }
}

} // verus!

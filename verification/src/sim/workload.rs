//! Generators of record headers.

use vstd::prelude::*;

use crate::{SessionId, TenantId, WirePartitionId};
use crate::runtime::ParsedHeader;

verus! {

/// A stream of headers for one session and one partition.
pub struct WorkloadBuilder {
    session_id: SessionId,
    partition_id: WirePartitionId,
    tenant_id: TenantId,
    stream_seq: u64,
    epoch: u64,
    opcode: u16,
}

/// The mathematical content of a [`WorkloadBuilder`].
pub struct WorkloadView {
    pub session_id: SessionId,
    pub partition_id: WirePartitionId,
    pub tenant_id: TenantId,
    pub stream_seq: u64,
    pub epoch: u64,
    pub opcode: u16,
}

impl View for WorkloadBuilder {
    type V = WorkloadView;

    closed spec fn view(&self) -> WorkloadView {
        WorkloadView {
            session_id: self.session_id,
            partition_id: self.partition_id,
            tenant_id: self.tenant_id,
            stream_seq: self.stream_seq,
            epoch: self.epoch,
            opcode: self.opcode,
        }
    }
}

/// A stream that starts at sequence number 1 and epoch 1.
pub open spec fn fresh_workload(
    session_id: SessionId,
    partition_id: WirePartitionId,
    opcode: u16,
) -> WorkloadView {
    WorkloadView {
        session_id,
        partition_id,
        tenant_id: TenantId(0),
        stream_seq: 1,
        epoch: 1,
        opcode,
    }
}

/// The header that is `ahead` steps ahead in the stream.
pub open spec fn nth_header(w: WorkloadView, ahead: int) -> ParsedHeader {
    ParsedHeader {
        opcode: w.opcode,
        flags: 0,
        length: 16,
        tenant_id: w.tenant_id,
        session_id: w.session_id,
        partition_id: w.partition_id,
        causal_epoch: (w.epoch + ahead) as u64,
        stream_seq: (w.stream_seq + ahead) as u64,
    }
}

/// The stream after so many steps.
pub open spec fn workload_after(w: WorkloadView, steps: int) -> WorkloadView {
    WorkloadView {
        stream_seq: (w.stream_seq + steps) as u64,
        epoch: (w.epoch + steps) as u64,
        ..w
    }
}

impl WorkloadBuilder {
    /// A workload of opcode 0x0001.
    pub fn set_value(session_id: SessionId, partition_id: WirePartitionId) -> (workload: Self)
        ensures
            workload@ == fresh_workload(session_id, partition_id, 0x0001),
    {
        WorkloadBuilder {
            session_id,
            partition_id,
            tenant_id: TenantId(0),
            stream_seq: 1,
            epoch: 1,
            opcode: 0x0001,
        }
    }

    /// A workload of propagations (opcode 0x0004).
    pub fn propagate(session_id: SessionId, partition_id: WirePartitionId) -> (workload: Self)
        ensures
            workload@ == fresh_workload(session_id, partition_id, 0x0004),
    {
        WorkloadBuilder {
            session_id,
            partition_id,
            tenant_id: TenantId(0),
            stream_seq: 1,
            epoch: 1,
            opcode: 0x0004,
        }
    }

    /// The next header. Sequence number and epoch go up by one.
    pub fn next(&mut self) -> (header: ParsedHeader)
        requires
            old(self)@.stream_seq < u64::MAX,
            old(self)@.epoch < u64::MAX,
        ensures
            header == nth_header(old(self)@, 0),
            final(self)@ == workload_after(old(self)@, 1),
    {
        let header = ParsedHeader {
            opcode: self.opcode,
            flags: 0,
            length: 16,
            tenant_id: self.tenant_id,
            session_id: self.session_id,
            partition_id: self.partition_id,
            causal_epoch: self.epoch,
            stream_seq: self.stream_seq,
        };
        self.stream_seq = self.stream_seq + 1;
        self.epoch = self.epoch + 1;
        header
    }

    /// The next `n` headers.
    pub fn batch(&mut self, n: usize) -> (headers: Vec<ParsedHeader>)
        requires
            old(self)@.stream_seq + n <= u64::MAX,
            old(self)@.epoch + n <= u64::MAX,
        ensures
            headers@ == Seq::new(n as nat, |i: int| nth_header(old(self)@, i)),
            final(self)@ == workload_after(old(self)@, n as int),
    {
        let mut headers: Vec<ParsedHeader> = Vec::new();
        let mut i: usize = 0;
        while i < n
            invariant
                i <= n,
                old(self)@.stream_seq + n <= u64::MAX,
                old(self)@.epoch + n <= u64::MAX,
                headers@.len() == i,
                forall|j: int| 0 <= j < i ==> #[trigger] headers@[j] == nth_header(old(self)@, j),
                self@ == workload_after(old(self)@, i as int),
            decreases n - i,
        {
            let header = self.next();
            headers.push(header);
            i = i + 1;
        }
        assert(headers@ =~= Seq::new(n as nat, |i: int| nth_header(old(self)@, i)));
        headers
    }
}

/// A workload that alternates between two partitions.
pub struct CrossShardWorkload {
    pub local: WorkloadBuilder,
    pub remote: WorkloadBuilder,
    /// The next header is one for the remote partition.
    pub toggle: bool,
}

/// The mathematical content of a [`CrossShardWorkload`].
pub struct CrossShardView {
    pub local: WorkloadView,
    pub remote: WorkloadView,
    /// The next header is one for the remote partition.
    pub remote_is_next: bool,
}

impl View for CrossShardWorkload {
    type V = CrossShardView;

    open spec fn view(&self) -> CrossShardView {
        CrossShardView {
            local: self.local@,
            remote: self.remote@,
            remote_is_next: self.toggle,
        }
    }
}

impl CrossShardWorkload {
    pub fn new(
        session_id: SessionId,
        local_partition: WirePartitionId,
        remote_partition: WirePartitionId,
    ) -> (workload: Self)
        ensures
            workload@ == (CrossShardView {
                local: fresh_workload(session_id, local_partition, 0x0001),
                remote: fresh_workload(session_id, remote_partition, 0x0001),
                remote_is_next: false,
            }),
    {
        CrossShardWorkload {
            local: WorkloadBuilder::set_value(session_id, local_partition),
            remote: WorkloadBuilder::set_value(session_id, remote_partition),
            toggle: false,
        }
    }

    /// The next header, and whether it is for the remote partition.
    pub fn next(&mut self) -> (next: (ParsedHeader, bool))
        requires
            old(self)@.local.stream_seq < u64::MAX && old(self)@.local.epoch < u64::MAX,
            old(self)@.remote.stream_seq < u64::MAX && old(self)@.remote.epoch < u64::MAX,
        ensures
            next == (if old(self)@.remote_is_next {
                (nth_header(old(self)@.remote, 0), true)
            } else {
                (nth_header(old(self)@.local, 0), false)
            }),
            final(self)@ == (if old(self)@.remote_is_next {
                CrossShardView {
                    remote: workload_after(old(self)@.remote, 1),
                    remote_is_next: false,
                    ..old(self)@
                }
            } else {
                CrossShardView {
                    local: workload_after(old(self)@.local, 1),
                    remote_is_next: true,
                    ..old(self)@
                }
            }),
    {
        let is_remote = self.toggle;
        self.toggle = !self.toggle;
        if is_remote {
            (self.remote.next(), true)
        } else {
            (self.local.next(), false)
        }
    }
}

/// The `k`-th header of a new workload has sequence number and epoch `k`, and all of them have the
/// workload's session, partition and opcode, and no tenant.
pub proof fn law_workload_numbering(
    session_id: SessionId,
    partition_id: WirePartitionId,
    opcode: u16,
    k: u64,
)
    requires
        k >= 1,
    ensures
        nth_header(
            workload_after(fresh_workload(session_id, partition_id, opcode), k - 1),
            0,
        ) == (ParsedHeader {
            opcode,
            flags: 0,
            length: 16,
            tenant_id: TenantId(0),
            session_id,
            partition_id,
            causal_epoch: k,
            stream_seq: k,
        }),
        k < u64::MAX ==> workload_after(
            workload_after(fresh_workload(session_id, partition_id, opcode), k - 1),
            1,
        ) == workload_after(fresh_workload(session_id, partition_id, opcode), k as int),
{
}

/// The headers of a workload have strictly ascending sequence numbers and epochs.
pub proof fn law_workload_ascends(w: WorkloadView, i: int, j: int)
    requires
        0 <= i < j,
        w.stream_seq + j <= u64::MAX,
        w.epoch + j <= u64::MAX,
    ensures
        nth_header(w, i).stream_seq < nth_header(w, j).stream_seq,
        nth_header(w, i).causal_epoch < nth_header(w, j).causal_epoch,
{
}

} // verus!

//! What stands where in the payload of an instruction.

use vstd::prelude::*;
use vstd::utf8::{decode_utf8, encode_utf8, valid_utf8};

use crate::attr::{ValView, attr_at, canonical_float, lemma_with_attr_keys, with_attr};
use crate::bytes::{
    byte_range, le_bytes, le_value, lemma_byte_ranges, lemma_le_bytes_len, lemma_le_value_bound,
    signed_byte, text_before,
};
use crate::dispatch::{DispatchError, Reader};
use crate::grammar::{
    attrs_bytes, boundary_bytes, clocks_bytes, compile_byte, compile_of, dep_bytes,
    entries_bytes, exec_mode_byte, exec_mode_of, frontier_bytes, node_kind_byte, node_kind_of,
    op_in, opcode_of, payload_of, port_kind_byte, port_kind_of, stability_byte, stability_of,
    take_attrs, take_blob, take_boundary, take_entries, take_frontier, take_payload_kind,
    take_pid, take_provenance, take_remote_dep, take_text, take_u16, take_u32, take_u64, take_u8,
    take_uid, take_uids, take_val, ternary_byte, ternary_of, text_bytes, u32_bytes, uids_bytes,
    val_bytes, zero_kind_byte, zero_kind_of,
};
use crate::idmap::{lemma_sorted_keys_exist, sorted_keys};
use crate::isa::{
    CompilePolicy, ComputeRule, ConvergencePolicy, DepKindView, ExecMode, IsaOpView, NodeKind,
    PartitionId, PayloadKind, PortKind, QueuePriority, RegionBoundaryView, RetryPolicy,
    RewriteStrategy, StabilityContract, StabilizationDomain, T, Uid, ZeroKind,
};
use crate::laws::stream::law_reading_numbers;

verus! {

/// The bytes from `from` on, `width` of them, are the number.
pub open spec fn reads(value: int, s: Seq<u8>, from: int, width: nat) -> bool {
    0 <= value && le_bytes(value as nat, width) == s.subrange(from, from + width)
}

/// The payload ends before the `width` bytes of the field at `from`.
pub open spec fn ends_in(r: Result<IsaOpView, DispatchError>, s: Seq<u8>, from: int, width: int) -> bool {
    r == Err::<IsaOpView, _>(
        DispatchError::PayloadTruncated {
            needed: width as usize,
            available: (s.len() - from) as usize,
        },
    )
}

proof fn lemma_at(s: Seq<u8>, from: int, width: int)
    requires
        0 <= from <= s.len(),
        width == 1 || width == 2 || width == 4 || width == 8,
    ensures
        s.skip(0) == s,
        s.skip(from).len() == s.len() - from,
        from + width <= s.len() ==> {
            let part = s.subrange(from, from + width);
            &&& s.skip(from).take(width) == part
            &&& s.skip(from).skip(width) == s.skip(from + width)
            &&& s.skip(from)[0] == s[from]
            &&& le_value(part) < byte_range(width as nat)
            &&& le_bytes(le_value(part), width as nat) == part
        },
        byte_range(2) == 0x1_0000,
        byte_range(4) == 0x1_0000_0000,
        byte_range(8) == 0x1_0000_0000_0000_0000,
{
    lemma_byte_ranges();
    assert(s.skip(0) =~= s);
    if from + width <= s.len() {
        let part = s.subrange(from, from + width);
        assert(s.skip(from).take(width) =~= part);
        assert(s.skip(from).skip(width) =~= s.skip(from + width));
        lemma_le_value_bound(part);
        law_reading_numbers(part);
    }
}

/// A propagation: eight bytes, its node.
pub proof fn law_reads_propagate(s: Seq<u8>)
    ensures
        s.len() < 8 ==> ends_in(op_in(4, s), s, 0, 8),
        s.len() >= 8 ==> {
            &&& op_in(4, s) is Ok && op_in(4, s)->Ok_0 is Propagate
            &&& reads(op_in(4, s)->Ok_0->Propagate_node.0 as int, s, 0, 8)
            &&& op_in(4, s)->Ok_0->Propagate_node.0 < 0x1_0000_0000_0000_0000
        },
{
    lemma_at(s, 0, 8);
}

/// The removal of a node: eight bytes, the node.
pub proof fn law_reads_node_removal(s: Seq<u8>)
    ensures
        s.len() < 8 ==> ends_in(op_in(6, s), s, 0, 8),
        s.len() >= 8 ==> {
            &&& op_in(6, s) is Ok && op_in(6, s)->Ok_0 is DelNode
            &&& reads(op_in(6, s)->Ok_0->DelNode_id.0 as int, s, 0, 8)
            &&& op_in(6, s)->Ok_0->DelNode_id.0 < 0x1_0000_0000_0000_0000
        },
{
    lemma_at(s, 0, 8);
}

/// The removal of an edge: eight bytes, the edge.
pub proof fn law_reads_edge_removal(s: Seq<u8>)
    ensures
        s.len() < 8 ==> ends_in(op_in(7, s), s, 0, 8),
        s.len() >= 8 ==> {
            &&& op_in(7, s) is Ok && op_in(7, s)->Ok_0 is DelEdge
            &&& reads(op_in(7, s)->Ok_0->DelEdge_id.0 as int, s, 0, 8)
            &&& op_in(7, s)->Ok_0->DelEdge_id.0 < 0x1_0000_0000_0000_0000
        },
{
    lemma_at(s, 0, 8);
}

/// A demand: eight bytes, its node.
pub proof fn law_reads_demand(s: Seq<u8>)
    ensures
        s.len() < 8 ==> ends_in(op_in(8, s), s, 0, 8),
        s.len() >= 8 ==> {
            &&& op_in(8, s) is Ok && op_in(8, s)->Ok_0 is Demand
            &&& reads(op_in(8, s)->Ok_0->Demand_node.0 as int, s, 0, 8)
            &&& op_in(8, s)->Ok_0->Demand_node.0 < 0x1_0000_0000_0000_0000
        },
{
    lemma_at(s, 0, 8);
}

/// A reflection: eight bytes, its node.
pub proof fn law_reads_reflection(s: Seq<u8>)
    ensures
        s.len() < 8 ==> ends_in(op_in(10, s), s, 0, 8),
        s.len() >= 8 ==> {
            &&& op_in(10, s) is Ok && op_in(10, s)->Ok_0 is Reflect
            &&& reads(op_in(10, s)->Ok_0->Reflect_node.0 as int, s, 0, 8)
            &&& op_in(10, s)->Ok_0->Reflect_node.0 < 0x1_0000_0000_0000_0000
        },
{
    lemma_at(s, 0, 8);
}

/// A subscription: the source, and then the subscriber.
pub proof fn law_reads_subscription(s: Seq<u8>)
    ensures
        s.len() < 8 ==> ends_in(op_in(5, s), s, 0, 8),
        8 <= s.len() < 16 ==> ends_in(op_in(5, s), s, 8, 8),
        s.len() >= 16 ==> {
            &&& op_in(5, s) is Ok && op_in(5, s)->Ok_0 is Subscribe
            &&& reads(op_in(5, s)->Ok_0->Subscribe_source.0 as int, s, 0, 8)
            &&& reads(op_in(5, s)->Ok_0->Subscribe_subscriber.0 as int, s, 8, 8)
            &&& op_in(5, s)->Ok_0->Subscribe_source.0 < 0x1_0000_0000_0000_0000
            &&& op_in(5, s)->Ok_0->Subscribe_subscriber.0 < 0x1_0000_0000_0000_0000
        },
{
    lemma_at(s, 0, 8);
    if s.len() >= 8 {
        lemma_at(s, 8, 8);
    }
}

/// A binding: the node, and then the partition.
pub proof fn law_reads_binding(s: Seq<u8>)
    ensures
        s.len() < 8 ==> ends_in(op_in(13, s), s, 0, 8),
        8 <= s.len() < 16 ==> ends_in(op_in(13, s), s, 8, 8),
        s.len() >= 16 ==> {
            &&& op_in(13, s) is Ok && op_in(13, s)->Ok_0 is PartitionBind
            &&& reads(op_in(13, s)->Ok_0->PartitionBind_node.0 as int, s, 0, 8)
            &&& reads(op_in(13, s)->Ok_0->PartitionBind_partition.0 as int, s, 8, 8)
            &&& op_in(13, s)->Ok_0->PartitionBind_node.0 < 0x1_0000_0000_0000_0000
            &&& op_in(13, s)->Ok_0->PartitionBind_partition.0 < 0x1_0000_0000_0000_0000
        },
{
    lemma_at(s, 0, 8);
    if s.len() >= 8 {
        lemma_at(s, 8, 8);
    }
}

/// A value: the node, and then a byte: 1 for positive, 0 for zero, 255 for negative.
pub proof fn law_reads_value(s: Seq<u8>)
    ensures
        s.len() < 8 ==> ends_in(op_in(3, s), s, 0, 8),
        s.len() == 8 ==> ends_in(op_in(3, s), s, 8, 1),
        s.len() >= 9 ==> {
            &&& op_in(3, s) is Ok <==> s[8] == 0 || s[8] == 1 || s[8] == 255
            &&& op_in(3, s) matches Ok(op) ==> {
                &&& op is SetValue
                &&& reads(op->SetValue_node.0 as int, s, 0, 8)
                &&& op->SetValue_node.0 < 0x1_0000_0000_0000_0000
                &&& op->SetValue_val == T::Pos <==> s[8] == 1
                &&& op->SetValue_val == T::Zero <==> s[8] == 0
                &&& op->SetValue_val == T::Neg <==> s[8] == 255
            }
            &&& 2 <= s[8] < 128 ==> op_in(3, s) == Err::<IsaOpView, _>(
                DispatchError::InvalidTernaryValue(s[8] as i8),
            )
            &&& 128 <= s[8] < 255 ==> op_in(3, s) == Err::<IsaOpView, _>(
                DispatchError::InvalidTernaryValue((s[8] - 256) as i8),
            )
        },
{
    lemma_at(s, 0, 8);
    if s.len() >= 8 {
        lemma_at(s, 8, 1);
    }
}

/// A mode: the node, and then a byte: 0 for eager, 1 for lazy, 2 for stabilizing.
pub proof fn law_reads_mode(s: Seq<u8>)
    ensures
        s.len() < 8 ==> ends_in(op_in(9, s), s, 0, 8),
        s.len() == 8 ==> ends_in(op_in(9, s), s, 8, 1),
        s.len() >= 9 ==> {
            &&& s[8] > 2 ==> op_in(9, s) == Err::<IsaOpView, _>(DispatchError::UnknownExecMode(s[8]))
            &&& s[8] <= 2 ==> {
                &&& op_in(9, s) is Ok && op_in(9, s)->Ok_0 is SetMode
                &&& reads(op_in(9, s)->Ok_0->SetMode_node.0 as int, s, 0, 8)
                &&& op_in(9, s)->Ok_0->SetMode_node.0 < 0x1_0000_0000_0000_0000
                &&& op_in(9, s)->Ok_0->SetMode_mode == if s[8] == 0 {
                    ExecMode::Eager
                } else if s[8] == 1 {
                    ExecMode::Lazy
                } else {
                    ExecMode::Stabilizing
                }
            }
        },
{
    lemma_at(s, 0, 8);
    if s.len() >= 8 {
        lemma_at(s, 8, 1);
    }
}

/// A new partition: its identity, the root of its authority, its class and its scope. It is the root of
/// its own scope.
pub proof fn law_reads_partition(s: Seq<u8>)
    ensures
        s.len() < 8 ==> ends_in(op_in(12, s), s, 0, 8),
        8 <= s.len() < 16 ==> ends_in(op_in(12, s), s, 8, 8),
        16 <= s.len() < 24 ==> ends_in(op_in(12, s), s, 16, 8),
        24 <= s.len() < 32 ==> ends_in(op_in(12, s), s, 24, 8),
        s.len() >= 32 ==> op_in(12, s) is Ok && op_in(12, s)->Ok_0 is PartitionCreate && {
            let op = op_in(12, s)->Ok_0;
            &&& reads(op->PartitionCreate_id.0 as int, s, 0, 8)
            &&& op->PartitionCreate_id.0 < 0x1_0000_0000_0000_0000
            &&& reads(op->PartitionCreate_authority_root.0 as int, s, 8, 8)
            &&& op->PartitionCreate_authority_root.0 < 0x1_0000_0000_0000_0000
            &&& reads(op->PartitionCreate_lattice_class.0 as int, s, 16, 8)
            &&& reads(op->PartitionCreate_causal_domain.scope_bits as int, s, 24, 8)
            &&& op->PartitionCreate_causal_domain.root == op->PartitionCreate_id
        },
{
    lemma_at(s, 0, 8);
    if s.len() >= 8 {
        lemma_at(s, 8, 8);
    }
    if s.len() >= 16 {
        lemma_at(s, 16, 8);
    }
    if s.len() >= 24 {
        lemma_at(s, 24, 8);
    }
}

/// The authority of a partition: the partition, its class and its scope.
pub proof fn law_reads_authority(s: Seq<u8>)
    ensures
        s.len() < 8 ==> ends_in(op_in(14, s), s, 0, 8),
        8 <= s.len() < 16 ==> ends_in(op_in(14, s), s, 8, 8),
        16 <= s.len() < 24 ==> ends_in(op_in(14, s), s, 16, 8),
        s.len() >= 24 ==> op_in(14, s) is Ok && op_in(14, s)->Ok_0 is SetPartitionAuthority && {
            let op = op_in(14, s)->Ok_0;
            &&& reads(op->SetPartitionAuthority_partition.0 as int, s, 0, 8)
            &&& op->SetPartitionAuthority_partition.0 < 0x1_0000_0000_0000_0000
            &&& reads(op->SetPartitionAuthority_lattice_class.0 as int, s, 8, 8)
            &&& reads(op->SetPartitionAuthority_causal_domain.scope_bits as int, s, 16, 8)
            &&& op->SetPartitionAuthority_causal_domain.root.0 == 0
        },
{
    lemma_at(s, 0, 8);
    if s.len() >= 8 {
        lemma_at(s, 8, 8);
    }
    if s.len() >= 16 {
        lemma_at(s, 16, 8);
    }
}

/// The label of an edge: source, target, class, one byte of capabilities, and scope.
pub proof fn law_reads_label(s: Seq<u8>)
    ensures
        s.len() < 8 ==> ends_in(op_in(15, s), s, 0, 8),
        8 <= s.len() < 16 ==> ends_in(op_in(15, s), s, 8, 8),
        16 <= s.len() < 24 ==> ends_in(op_in(15, s), s, 16, 8),
        s.len() == 24 ==> ends_in(op_in(15, s), s, 24, 1),
        25 <= s.len() < 33 ==> ends_in(op_in(15, s), s, 25, 8),
        s.len() >= 33 ==> op_in(15, s) is Ok && op_in(15, s)->Ok_0 is SetEdgeLabel && {
            let op = op_in(15, s)->Ok_0;
            &&& reads(op->SetEdgeLabel_source.0 as int, s, 0, 8)
            &&& op->SetEdgeLabel_source.0 < 0x1_0000_0000_0000_0000
            &&& reads(op->SetEdgeLabel_target.0 as int, s, 8, 8)
            &&& op->SetEdgeLabel_target.0 < 0x1_0000_0000_0000_0000
            &&& reads(op->SetEdgeLabel_label.lattice_class.0 as int, s, 16, 8)
            &&& op->SetEdgeLabel_label.capability.0 == s[24]
            &&& reads(op->SetEdgeLabel_label.causal_scope.scope_bits as int, s, 25, 8)
            &&& op->SetEdgeLabel_label.causal_scope.root.0 == 0
        },
{
    lemma_at(s, 0, 8);
    if s.len() >= 8 {
        lemma_at(s, 8, 8);
    }
    if s.len() >= 16 {
        lemma_at(s, 16, 8);
    }
    if s.len() >= 24 {
        lemma_at(s, 24, 1);
    }
    if s.len() >= 25 {
        lemma_at(s, 25, 8);
    }
}

/// How a node stabilizes: the node, a byte for the strategy (0 for the full one), a byte for the domain
/// (0 local, 1 federated, any other inherited), a budget of four bytes, and a byte for the convergence
/// (0 canonical, 1 witness, any other until the budget is exhausted).
pub proof fn law_reads_stabilization_config(s: Seq<u8>)
    ensures
        s.len() < 8 ==> ends_in(op_in(16, s), s, 0, 8),
        s.len() == 8 ==> ends_in(op_in(16, s), s, 8, 1),
        s.len() == 9 ==> ends_in(op_in(16, s), s, 9, 1),
        10 <= s.len() < 14 ==> ends_in(op_in(16, s), s, 10, 4),
        s.len() == 14 ==> ends_in(op_in(16, s), s, 14, 1),
        s.len() >= 15 ==> op_in(16, s) is Ok && op_in(16, s)->Ok_0 is SetStabilizationConfig && {
            let op = op_in(16, s)->Ok_0;
            let c = op->SetStabilizationConfig_config;
            &&& reads(op->SetStabilizationConfig_node.0 as int, s, 0, 8)
            &&& op->SetStabilizationConfig_node.0 < 0x1_0000_0000_0000_0000
            &&& s[8] == 0 ==> c.strategy == RewriteStrategy::FullL3
            &&& s[8] != 0 ==> c.strategy == RewriteStrategy::Restricted(s[8] as u64)
            &&& c.domain == StabilizationDomain::LocalOnly <==> s[9] == 0
            &&& c.domain == StabilizationDomain::Federated <==> s[9] == 1
            &&& c.domain == StabilizationDomain::Inherit <==> s[9] >= 2
            &&& reads(c.budget.max_iterations as int, s, 10, 4)
            &&& c.budget.max_iterations < 0x1_0000_0000
            &&& c.convergence_policy == ConvergencePolicy::Canonical <==> s[14] == 0
            &&& c.convergence_policy == ConvergencePolicy::Witness <==> s[14] == 1
            &&& c.convergence_policy == ConvergencePolicy::BudgetExhausted <==> s[14] >= 2
        },
{
    lemma_at(s, 0, 8);
    if s.len() >= 8 {
        lemma_at(s, 8, 1);
    }
    if s.len() >= 9 {
        lemma_at(s, 9, 1);
    }
    if s.len() >= 10 {
        lemma_at(s, 10, 4);
    }
    if s.len() >= 14 {
        lemma_at(s, 14, 1);
    }
}

/// How a node is executed: the node, a byte for the priority (1 high, 2 low, any other normal), and a
/// byte for failures (1 for three attempts, any other for none).
pub proof fn law_reads_execution_policy(s: Seq<u8>)
    ensures
        s.len() < 8 ==> ends_in(op_in(17, s), s, 0, 8),
        s.len() == 8 ==> ends_in(op_in(17, s), s, 8, 1),
        s.len() == 9 ==> ends_in(op_in(17, s), s, 9, 1),
        s.len() >= 10 ==> op_in(17, s) is Ok && op_in(17, s)->Ok_0 is SetExecutionPolicy && {
            let op = op_in(17, s)->Ok_0;
            let p = op->SetExecutionPolicy_policy;
            &&& reads(op->SetExecutionPolicy_node.0 as int, s, 0, 8)
            &&& op->SetExecutionPolicy_node.0 < 0x1_0000_0000_0000_0000
            &&& p.queue_priority == QueuePriority::High <==> s[8] == 1
            &&& p.queue_priority == QueuePriority::Low <==> s[8] == 2
            &&& p.queue_priority == QueuePriority::Normal <==> s[8] != 1 && s[8] != 2
            &&& s[9] == 1 ==> p.retry_policy == (RetryPolicy::Retry { max_attempts: 3 })
            &&& s[9] != 1 ==> p.retry_policy == RetryPolicy::Fail
        },
{
    lemma_at(s, 0, 8);
    if s.len() >= 8 {
        lemma_at(s, 8, 1);
    }
    if s.len() >= 9 {
        lemma_at(s, 9, 1);
    }
}

/// An opcode that is none of the eighteen has no instruction.
pub proof fn law_reads_no_other(opcode: u16, s: Seq<u8>)
    ensures
        opcode == 0 || opcode > 18 ==> op_in(opcode, s) == Err::<IsaOpView, _>(
            DispatchError::UnknownOpcode(opcode),
        ),
{
}

// ── Parts of varying length ──────────────────────────────────────────────────

/// A number takes its own bytes off the front, or ends the payload.
pub proof fn law_reads_numbers(s: Seq<u8>)
    requires
        s.len() <= usize::MAX,
    ensures
        s.len() == 0 ==> take_u8(s) is Err && take_u8(s)->Err_0 == (DispatchError::PayloadTruncated {
            needed: 1,
            available: 0,
        }),
        s.len() > 0 ==> take_u8(s) == Ok::<_, DispatchError>((s[0], s.skip(1))),
        s.len() < 2 ==> take_u16(s) is Err && take_u16(s)->Err_0 == (
        DispatchError::PayloadTruncated { needed: 2, available: s.len() as usize }),
        s.len() >= 2 ==> take_u16(s) is Ok && reads(take_u16(s)->Ok_0.0 as int, s, 0, 2)
            && take_u16(s)->Ok_0.1 == s.skip(2),
        s.len() < 4 ==> take_u32(s) is Err && take_u32(s)->Err_0 == (
        DispatchError::PayloadTruncated { needed: 4, available: s.len() as usize }),
        s.len() >= 4 ==> take_u32(s) is Ok && reads(take_u32(s)->Ok_0.0 as int, s, 0, 4)
            && take_u32(s)->Ok_0.1 == s.skip(4),
        s.len() < 8 ==> take_u64(s) is Err && take_u64(s)->Err_0 == (
        DispatchError::PayloadTruncated { needed: 8, available: s.len() as usize }),
        s.len() >= 8 ==> take_u64(s) is Ok && reads(take_u64(s)->Ok_0.0 as int, s, 0, 8)
            && take_u64(s)->Ok_0.1 == s.skip(8),
        s.len() < 8 ==> take_uid(s) is Err && take_uid(s)->Err_0 == take_u64(s)->Err_0,
        s.len() >= 8 ==> take_uid(s) is Ok && (take_uid(s)->Ok_0.0).0 == take_u64(s)->Ok_0.0
            && take_uid(s)->Ok_0.1 == s.skip(8),
        s.len() < 8 ==> take_pid(s) is Err && take_pid(s)->Err_0 == take_u64(s)->Err_0,
        s.len() >= 8 ==> take_pid(s) is Ok && (take_pid(s)->Ok_0.0).0 == take_u64(s)->Ok_0.0
            && take_pid(s)->Ok_0.1 == s.skip(8),
{
    lemma_at(s, 0, 1);
    lemma_at(s, 0, 2);
    lemma_at(s, 0, 4);
    lemma_at(s, 0, 8);
    assert(s.len() >= 2 ==> s.take(2) =~= s.subrange(0, 2));
    assert(s.len() >= 4 ==> s.take(4) =~= s.subrange(0, 4));
    assert(s.len() >= 8 ==> s.take(8) =~= s.subrange(0, 8));
}

/// A blob: its length in four bytes, and then so many bytes.
pub proof fn law_reads_blob(s: Seq<u8>)
    requires
        s.len() <= usize::MAX,
    ensures
        s.len() < 4 ==> take_blob(s) is Err && take_blob(s)->Err_0 == (
        DispatchError::PayloadTruncated { needed: 4, available: s.len() as usize }),
        s.len() >= 4 ==> {
            let n = le_value(s.subrange(0, 4));
            &&& s.len() < 4 + n ==> take_blob(s) is Err && take_blob(s)->Err_0 == (
            DispatchError::PayloadTruncated {
                needed: n as usize,
                available: (s.len() - 4) as usize,
            })
            &&& s.len() >= 4 + n ==> take_blob(s) == Ok::<_, DispatchError>(
                (s.subrange(4, 4 + n as int), s.skip(4 + n as int)),
            )
        },
{
    lemma_at(s, 0, 4);
    if s.len() >= 4 {
        let n = le_value(s.subrange(0, 4)) as int;
        assert(s.take(4) =~= s.subrange(0, 4));
        if s.len() >= 4 + n {
            assert(s.skip(4).take(n) =~= s.subrange(4, 4 + n));
            assert(s.skip(4).skip(n) =~= s.skip(4 + n));
        }
    }
}

/// A signed number is a ternary value where it is 1, 0 or -1.
pub proof fn law_ternary_numbers(v: i8)
    ensures
        ternary_of(v) == Ok::<_, DispatchError>(T::Pos) <==> v == 1,
        ternary_of(v) == Ok::<_, DispatchError>(T::Zero) <==> v == 0,
        ternary_of(v) == Ok::<_, DispatchError>(T::Neg) <==> v == -1,
        v < -1 || v > 1 ==> ternary_of(v) == Err::<T, _>(DispatchError::InvalidTernaryValue(v)),
        ternary_byte(T::Pos) == 1,
        ternary_byte(T::Zero) == 0,
        ternary_byte(T::Neg) == -1,
{
}

/// A reader after a read: it has the value and stands behind its bytes, or has the error.
pub proof fn law_reader<'a>(
    after: Reader<'a>,
    r: Result<u64, DispatchError>,
    value: spec_fn(u64) -> u64,
    expected: Result<(u64, Seq<u8>), DispatchError>,
)
    requires
        Reader::reads(after, r, value, expected),
    ensures
        after.pos <= after.buf@.len(),
        expected matches Ok((v, rest)) ==> r is Ok && value(r->Ok_0) == v && after.buf@.skip(
            after.pos as int,
        ) == rest,
        expected matches Err(e) ==> r is Err && r->Err_0 == e,
{
}

/// Identities in a row stand eight bytes apart; a row that is cut ends in the identity that is cut.
pub proof fn law_reads_identities(ids: Seq<Uid>, count: nat, s: Seq<u8>)
    requires
        s.len() <= usize::MAX,
    ensures
        s.len() >= 8 * count ==> take_uids(ids, count, s) is Ok && {
            let (all, rest) = take_uids(ids, count, s)->Ok_0;
            &&& all.len() == ids.len() + count
            &&& all.take(ids.len() as int) == ids
            &&& forall|i: int|
                0 <= i < count ==> (#[trigger] all[ids.len() + i]).0 < 0x1_0000_0000_0000_0000
                    && reads(all[ids.len() + i].0 as int, s, 8 * i, 8)
            &&& rest == s.skip(8 * count as int)
        },
        s.len() < 8 * count ==> take_uids(ids, count, s) == Err::<(Seq<Uid>, Seq<u8>), _>(
            DispatchError::PayloadTruncated { needed: 8, available: (s.len() % 8) as usize },
        ),
    decreases count,
{
    lemma_at(s, 0, 8);
    if count > 0 && s.len() >= 8 {
        let id = Uid(le_value(s.take(8)) as u64 as u128);
        assert(s.take(8) =~= s.subrange(0, 8));
        let more = ids.push(id);
        let tail = s.skip(8);
        law_reads_identities(more, (count - 1) as nat, tail);
        if s.len() >= 8 * count {
            let (all, rest) = take_uids(ids, count, s)->Ok_0;
            assert(all.take(more.len() as int)[ids.len() as int] == id);
            assert(all.take(ids.len() as int) =~= all.take(more.len() as int).take(
                ids.len() as int,
            ));
            assert(more.take(ids.len() as int) =~= ids);
            assert(all[ids.len() as int] == id);
            assert forall|i: int| 0 <= i < count implies (#[trigger] all[ids.len() + i]).0
                < 0x1_0000_0000_0000_0000 && reads(all[ids.len() + i].0 as int, s, 8 * i, 8) by {
                if i > 0 {
                    assert(all[more.len() + (i - 1)] == all[ids.len() + i]);
                    assert(tail.subrange(8 * (i - 1), 8 * (i - 1) + 8) =~= s.subrange(
                        8 * i,
                        8 * i + 8,
                    ));
                }
            }
            assert(tail.skip(8 * (count - 1)) =~= s.skip(8 * count as int));
        }
    } else if count == 0 {
        assert(ids.take(ids.len() as int) =~= ids);
    }
}

/// A text: its length in two bytes, and then so many bytes of UTF-8.
pub proof fn law_reads_text(s: Seq<u8>)
    requires
        s.len() <= usize::MAX,
    ensures
        s.len() < 2 ==> take_text(s) == Err::<(Seq<char>, Seq<u8>), _>(
            DispatchError::PayloadTruncated { needed: 2, available: s.len() as usize },
        ),
        s.len() >= 2 ==> {
            let n = s[0] + 256 * s[1];
            &&& s.len() < 2 + n ==> take_text(s) == Err::<(Seq<char>, Seq<u8>), _>(
                DispatchError::PayloadTruncated {
                    needed: n as usize,
                    available: (s.len() - 2) as usize,
                },
            )
            &&& s.len() >= 2 + n ==> {
                let body = s.subrange(2, 2 + n);
                &&& take_text(s) is Ok <==> valid_utf8(body)
                &&& take_text(s) matches Ok((t, rest)) ==> encode_utf8(t) == body && rest == s.skip(
                    2 + n,
                )
                &&& take_text(s) matches Err(e) ==> e == DispatchError::InvalidUtf8
            }
        },
{
    if s.len() >= 2 {
        lemma_at(s, 0, 2);
        reveal_with_fuel(le_value, 3);
        assert(s.take(2).drop_first()[0] == s[1]);
        let n = s[0] + 256 * s[1];
        assert(le_value(s.take(2)) == n);
        if s.len() >= 2 + n {
            let body = s.subrange(2, 2 + n);
            assert(s.skip(2).take(n) =~= body);
            assert(s.skip(2).skip(n) =~= s.skip(2 + n));
            if valid_utf8(body) {
                vstd::utf8::decode_utf8_encode_utf8(body);
            }
        }
    }
}

/// An attribute's value, by its tag: 1 a truth value, of which every byte but 0 is true; 2 and 7 a
/// signed word; 3 a float; 4 a text; 6 a ternary value. Blobs, tag 5, are read past and refused, and
/// so is any other tag.
pub proof fn law_reads_attribute(s: Seq<u8>)
    requires
        0 < s.len() <= usize::MAX,
    ensures
        ({
            let r = take_val(s);
            let rest = s.skip(1);
            let cut = Err::<(ValView, Seq<u8>), _>(
                DispatchError::PayloadTruncated {
                    needed: if s[0] == 1 || s[0] == 6 {
                        1
                    } else {
                        8
                    },
                    available: (s.len() - 1) as usize,
                },
            );
            &&& s[0] == 0 || s[0] > 7 ==> r == Err::<(ValView, Seq<u8>), _>(
                DispatchError::UnsupportedAttrTag(s[0]),
            )
            &&& (s[0] == 1 || s[0] == 6) && s.len() < 2 ==> r == cut
            &&& (s[0] == 2 || s[0] == 3 || s[0] == 7) && s.len() < 9 ==> r == cut
            &&& s[0] == 1 && s.len() >= 2 ==> r == Ok::<_, DispatchError>(
                (ValView::Bool(s[1] != 0), s.skip(2)),
            )
            &&& (s[0] == 2 || s[0] == 7) && s.len() >= 9 ==> r is Ok && {
                &&& r->Ok_0.0 is Int
                &&& reads(r->Ok_0.0->Int_0 as int, s, 1, 8) || reads(
                    r->Ok_0.0->Int_0 + 0x1_0000_0000_0000_0000,
                    s,
                    1,
                    8,
                ) && r->Ok_0.0->Int_0 < 0
                &&& r->Ok_0.1 == s.skip(9)
            }
            &&& s[0] == 3 && s.len() >= 9 ==> r is Ok && {
                &&& r->Ok_0.0 is Float
                &&& exists|w: u64| #[trigger]
                    reads(w as int, s, 1, 8) && r->Ok_0.0->Float_0 == canonical_float(w)
                &&& r->Ok_0.1 == s.skip(9)
            }
            &&& s[0] == 4 ==> match take_text(rest) {
                Ok((t, left)) => r == Ok::<_, DispatchError>((ValView::Text(t), left)),
                Err(e) => r == Err::<(ValView, Seq<u8>), _>(e),
            }
            &&& s[0] == 5 ==> r is Err
            &&& s[0] == 5 && s.len() < 5 ==> r == Err::<(ValView, Seq<u8>), _>(
                DispatchError::PayloadTruncated { needed: 4, available: (s.len() - 1) as usize },
            )
            &&& s[0] == 5 && s.len() >= 5 ==> {
                let n = le_value(s.subrange(1, 5));
                &&& s.len() >= 5 + n ==> r == Err::<(ValView, Seq<u8>), _>(
                    DispatchError::UnsupportedAttrTag(5),
                )
                &&& s.len() < 5 + n ==> r == Err::<(ValView, Seq<u8>), _>(
                    DispatchError::PayloadTruncated {
                        needed: n as usize,
                        available: (s.len() - 5) as usize,
                    },
                )
            }
            &&& s[0] == 6 && s.len() >= 2 ==> {
                &&& r is Ok <==> s[1] == 0 || s[1] == 1 || s[1] == 255
                &&& r matches Ok((v, left)) ==> left == s.skip(2) && v == ValView::Ternary(
                    if s[1] == 0 {
                        T::Zero
                    } else if s[1] == 1 {
                        T::Pos
                    } else {
                        T::Neg
                    },
                )
            }
        }),
{
    lemma_at(s, 0, 1);
    lemma_at(s, 1, 1);
    lemma_at(s, 1, 4);
    lemma_at(s, 1, 8);
    if s.len() >= 9 && s[0] == 3 {
        let w = le_value(s.subrange(1, 9)) as u64;
        assert(reads(w as int, s, 1, 8));
    }
}

/// A float travels with its bits, but for those that are no number, of which there is one form.
pub proof fn law_floats(bits: u64)
    ensures
        canonical_float(bits) == bits || canonical_float(bits) == 0x7FF8_0000_0000_0000,
        canonical_float(bits) != bits ==> (bits & 0x7FF0_0000_0000_0000 == 0x7FF0_0000_0000_0000
            && bits & 0x000F_FFFF_FFFF_FFFF != 0),
        (bits & 0x7FF0_0000_0000_0000 == 0x7FF0_0000_0000_0000 && bits & 0x000F_FFFF_FFFF_FFFF != 0)
            ==> canonical_float(bits) == 0x7FF8_0000_0000_0000,
{
    assert((bits & 0x7FF0_0000_0000_0000 == 0x7FF0_0000_0000_0000 && bits & 0x000F_FFFF_FFFF_FFFF
        != 0) <==> (bits & 0x7FFF_FFFF_FFFF_FFFF > 0x7FF0_0000_0000_0000)) by (bit_vector);
}

/// Attributes: their number in two bytes, and then a key and a value each. A key that comes twice
/// has its last value.
pub proof fn law_reads_attributes(entries: Seq<(Seq<char>, ValView)>, count: nat, s: Seq<u8>)
    requires
        s.len() <= usize::MAX,
    ensures
        take_entries(entries, 0, s) == Ok::<_, DispatchError>((entries, s)),
        count > 0 ==> match take_text(s) {
            Err(e) => take_entries(entries, count, s) is Err && take_entries(
                entries,
                count,
                s,
            )->Err_0 == e,
            Ok((key, rest)) => match take_val(rest) {
                Err(e) => take_entries(entries, count, s) is Err && take_entries(
                    entries,
                    count,
                    s,
                )->Err_0 == e,
                Ok((val, left)) => take_entries(entries, count, s) == take_entries(
                    with_attr(entries, key, val),
                    (count - 1) as nat,
                    left,
                ),
            },
        },
        s.len() < 2 ==> take_attrs(s) is Err && take_attrs(s)->Err_0 == (
        DispatchError::PayloadTruncated { needed: 2, available: s.len() as usize }),
        s.len() >= 2 ==> take_attrs(s) == take_entries(
            Seq::empty(),
            (s[0] + 256 * s[1]) as nat,
            s.skip(2),
        ),
{
    if s.len() >= 2 {
        lemma_at(s, 0, 2);
        reveal_with_fuel(le_value, 3);
        assert(s.take(2).drop_first()[0] == s[1]);
    }
}

/// Entries that are in the order of their keys stay so when one is set.
pub proof fn law_attributes_stay_in_order(
    entries: Seq<(Seq<char>, ValView)>,
    key: Seq<char>,
    val: ValView,
    i: int,
    j: int,
)
    requires
        forall|a: int, b: int|
            0 <= a < b < entries.len() ==> text_before(
                (#[trigger] entries[a]).0,
                (#[trigger] entries[b]).0,
            ),
    ensures
        0 <= i < j < with_attr(entries, key, val).len() ==> text_before(
            with_attr(entries, key, val)[i].0,
            with_attr(entries, key, val)[j].0,
        ),
{
    lemma_with_attr_keys(entries, key, val);
}

/// The value of an attribute is the one in its entry.
pub proof fn law_attribute_is_its_entry(
    entries: Seq<(Seq<char>, ValView)>,
    key: Seq<char>,
    val: ValView,
)
    requires
        forall|i: int, j: int|
            0 <= i < j < entries.len() ==> (#[trigger] entries[i]).0 != (#[trigger] entries[j]).0,
    ensures
        attr_at(entries, key) == Some(val) <==> entries.contains((key, val)),
    decreases entries.len(),
{
    if entries.len() > 0 {
        let init = entries.drop_last();
        assert forall|i: int, j: int| 0 <= i < j < init.len() implies (#[trigger] init[i]).0 != (
        #[trigger] init[j]).0 by {
            assert(entries[i].0 != entries[j].0);
        }
        law_attribute_is_its_entry(init, key, val);
        assert(entries == init.push(entries.last()));
        if entries.contains((key, val)) {
            let i = choose|i: int| 0 <= i < entries.len() && entries[i] == (key, val);
            if i < init.len() {
                assert(init[i] == (key, val));
                assert(entries[i].0 != entries[entries.len() - 1].0);
            }
        }
        if init.contains((key, val)) {
            let i = choose|i: int| 0 <= i < init.len() && init[i] == (key, val);
            assert(entries[i] == (key, val));
            assert(entries[i].0 != entries[entries.len() - 1].0);
        }
        assert(entries[entries.len() - 1] == entries.last());
    }
}

/// A causal frontier: for each partition its identity and its clock, sixteen bytes. One that comes
/// twice has its last clock.
pub proof fn law_reads_frontier(frontier: Map<PartitionId, u64>, count: nat, s: Seq<u8>)
    requires
        s.len() <= usize::MAX,
    ensures
        take_frontier(frontier, 0, s) == Ok::<_, DispatchError>((frontier, s)),
        count > 0 && s.len() < 8 ==> take_frontier(frontier, count, s) is Err && take_frontier(
            frontier,
            count,
            s,
        )->Err_0 == (DispatchError::PayloadTruncated { needed: 8, available: s.len() as usize }),
        count > 0 && 8 <= s.len() < 16 ==> take_frontier(frontier, count, s) is Err
            && take_frontier(frontier, count, s)->Err_0 == (DispatchError::PayloadTruncated {
            needed: 8,
            available: (s.len() - 8) as usize,
        }),
        count > 0 && s.len() >= 16 ==> exists|id: PartitionId, clock: u64|
            {
                &&& id.0 < 0x1_0000_0000_0000_0000
                &&& reads(id.0 as int, s, 0, 8)
                &&& reads(clock as int, s, 8, 8)
                &&& take_frontier(frontier, count, s) == take_frontier(
                    #[trigger] frontier.insert(id, clock),
                    (count - 1) as nat,
                    s.skip(16),
                )
            },
{
    lemma_at(s, 0, 8);
    if s.len() >= 8 {
        lemma_at(s, 8, 8);
    }
    if count > 0 && s.len() >= 16 {
        let id = PartitionId(le_value(s.subrange(0, 8)) as u64 as u128);
        let clock = le_value(s.subrange(8, 16)) as u64;
        assert(reads(id.0 as int, s, 0, 8));
        assert(reads(clock as int, s, 8, 8));
        assert(take_frontier(frontier, count, s) == take_frontier(
            frontier.insert(id, clock),
            (count - 1) as nat,
            s.skip(16),
        ));
    }
}

/// A region to stabilize: a number in four bytes, and then so many identities; none for everything.
pub proof fn law_reads_stabilization(s: Seq<u8>)
    requires
        s.len() <= usize::MAX,
    ensures
        s.len() < 4 ==> ends_in(op_in(11, s), s, 0, 4),
        s.len() >= 4 ==> {
            let n = le_value(s.subrange(0, 4));
            &&& n == 0 ==> op_in(11, s) == Ok::<_, DispatchError>(
                IsaOpView::Stabilize { region: None },
            )
            &&& n > 0 && s.len() >= 4 + 8 * n ==> {
                &&& op_in(11, s) is Ok && op_in(11, s)->Ok_0 is Stabilize
                &&& op_in(11, s)->Ok_0->Stabilize_region is Some
                &&& (op_in(11, s)->Ok_0->Stabilize_region->0).len() == n
                &&& forall|i: int|
                    0 <= i < n ==> reads(
                        (#[trigger] (op_in(11, s)->Ok_0->Stabilize_region->0)[i]).0 as int,
                        s,
                        4 + 8 * i,
                        8,
                    )
            }
            &&& n > 0 && s.len() < 4 + 8 * n ==> op_in(11, s) == Err::<IsaOpView, _>(
                DispatchError::PayloadTruncated {
                    needed: 8,
                    available: ((s.len() - 4) % 8) as usize,
                },
            )
        },
{
    lemma_at(s, 0, 4);
    if s.len() >= 4 {
        let n = le_value(s.subrange(0, 4));
        let tail = s.skip(4);
        assert(s.take(4) =~= s.subrange(0, 4));
        law_reads_identities(Seq::empty(), n, tail);
        if n > 0 && s.len() >= 4 + 8 * n {
            let all = take_uids(Seq::empty(), n, tail)->Ok_0.0;
            assert forall|i: int| 0 <= i < n implies reads(
                (#[trigger] all[i]).0 as int,
                s,
                4 + 8 * i,
                8,
            ) by {
                assert(all[Seq::<Uid>::empty().len() + i] == all[i]);
                assert(tail.subrange(8 * i, 8 * i + 8) =~= s.subrange(4 + 8 * i, 4 + 8 * i + 8));
            }
        }
    }
}

/// The boundary of a region, by its tag: 0 a depth of four bytes, 1 a number in four bytes and so
/// many identities, 2 a partition.
pub proof fn law_reads_boundary(s: Seq<u8>)
    requires
        s.len() <= usize::MAX,
    ensures
        ({
            let r = take_boundary(s);
            &&& s.len() == 0 ==> r is Err && r->Err_0 == (DispatchError::PayloadTruncated {
                needed: 1,
                available: 0,
            })
            &&& s.len() > 0 && s[0] > 2 ==> r is Err && r->Err_0
                == DispatchError::UnknownRegionBoundaryTag(s[0])
            &&& s.len() > 0 && s[0] <= 1 && s.len() < 5 ==> r is Err && r->Err_0 == (
            DispatchError::PayloadTruncated { needed: 4, available: (s.len() - 1) as usize })
            &&& s.len() > 0 && s[0] == 2 && s.len() < 9 ==> r is Err && r->Err_0 == (
            DispatchError::PayloadTruncated { needed: 8, available: (s.len() - 1) as usize })
            &&& s.len() >= 5 && s[0] == 0 ==> r is Ok && {
                &&& r->Ok_0.0 is DepClosure
                &&& reads(r->Ok_0.0->DepClosure_max_depth as int, s, 1, 4)
                &&& r->Ok_0.0->DepClosure_max_depth < 0x1_0000_0000
                &&& r->Ok_0.1 == s.skip(5)
            }
            &&& s.len() >= 9 && s[0] == 2 ==> r is Ok && {
                &&& r->Ok_0.0 is PartitionScoped
                &&& reads((r->Ok_0.0->PartitionScoped_0).0 as int, s, 1, 8)
                &&& (r->Ok_0.0->PartitionScoped_0).0 < 0x1_0000_0000_0000_0000
                &&& r->Ok_0.1 == s.skip(9)
            }
            &&& s.len() >= 5 && s[0] == 1 ==> {
                let n = le_value(s.subrange(1, 5));
                match take_uids(Seq::empty(), n, s.skip(5)) {
                    Ok((ids, rest)) => r == Ok::<_, DispatchError>(
                        (RegionBoundaryView::ExplicitSet(ids), rest),
                    ),
                    Err(e) => r is Err && r->Err_0 == e,
                }
            }
        }),
{
    if s.len() > 0 {
        lemma_at(s, 0, 1);
        lemma_at(s, 1, 4);
        lemma_at(s, 1, 8);
    }
}

/// A region: its root, its boundary, a byte for its stability (0 pinned, 1 by epoch) and a byte for
/// its compilation (0 eager, 1 lazy, 2 never).
pub proof fn law_reads_region(s: Seq<u8>)
    requires
        s.len() <= usize::MAX,
    ensures
        s.len() < 8 ==> ends_in(op_in(18, s), s, 0, 8),
        s.len() >= 8 ==> match take_boundary(s.skip(8)) {
            Err(e) => op_in(18, s) == Err::<IsaOpView, _>(e),
            Ok((boundary, rest)) => {
                let r = op_in(18, s);
                &&& rest.len() == 0 ==> r == Err::<IsaOpView, _>(
                    DispatchError::PayloadTruncated { needed: 1, available: 0 },
                )
                &&& rest.len() > 0 && rest[0] > 1 ==> r == Err::<IsaOpView, _>(
                    DispatchError::UnknownStabilityContract(rest[0]),
                )
                &&& rest.len() == 1 && rest[0] <= 1 ==> r == Err::<IsaOpView, _>(
                    DispatchError::PayloadTruncated { needed: 1, available: 0 },
                )
                &&& rest.len() > 1 && rest[0] <= 1 && rest[1] > 2 ==> r == Err::<IsaOpView, _>(
                    DispatchError::UnknownCompilePolicy(rest[1]),
                )
                &&& rest.len() > 1 && rest[0] <= 1 && rest[1] <= 2 ==> r is Ok
                    && r->Ok_0 is RegionDeclare && {
                    let op = r->Ok_0;
                    &&& reads(op->RegionDeclare_root.0 as int, s, 0, 8)
                    &&& op->RegionDeclare_root.0 < 0x1_0000_0000_0000_0000
                    &&& op->RegionDeclare_boundary == boundary
                    &&& op->RegionDeclare_stability == if rest[0] == 0 {
                        StabilityContract::Pinned
                    } else {
                        StabilityContract::EpochTracked
                    }
                    &&& op->RegionDeclare_compile == if rest[1] == 0 {
                        CompilePolicy::Eager
                    } else if rest[1] == 1 {
                        CompilePolicy::Lazy
                    } else {
                        CompilePolicy::Never
                    }
                }
            },
        },
{
    lemma_at(s, 0, 8);
    if s.len() >= 8 {
        if let Ok((boundary, rest)) = take_boundary(s.skip(8)) {
            if rest.len() > 0 {
                lemma_at(rest, 0, 1);
            }
            if rest.len() > 1 {
                lemma_at(rest, 1, 1);
            }
        }
    }
}

/// A node: its identity, its type, a byte for its rule, and its attributes.
pub proof fn law_reads_node(s: Seq<u8>)
    requires
        s.len() <= usize::MAX,
    ensures
        s.len() < 8 ==> ends_in(op_in(1, s), s, 0, 8),
        s.len() >= 8 ==> match take_text(s.skip(8)) {
            Err(e) => op_in(1, s) == Err::<IsaOpView, _>(e),
            Ok((typ, rest)) => {
                let r = op_in(1, s);
                &&& rest.len() == 0 ==> r == Err::<IsaOpView, _>(
                    DispatchError::PayloadTruncated { needed: 1, available: 0 },
                )
                &&& rest.len() > 0 && rest[0] > 10 ==> r == Err::<IsaOpView, _>(
                    DispatchError::UnknownNodeRule(rest[0]),
                )
                &&& rest.len() > 0 && rest[0] <= 10 ==> match take_attrs(rest.skip(1)) {
                    Err(e) => r == Err::<IsaOpView, _>(e),
                    Ok((attrs, _)) => r is Ok && r->Ok_0 is NodeCreate && {
                        let op = r->Ok_0;
                        &&& reads(op->NodeCreate_id.0 as int, s, 0, 8)
                        &&& op->NodeCreate_id.0 < 0x1_0000_0000_0000_0000
                        &&& op->NodeCreate_typ == typ
                        &&& node_kind_byte(op->NodeCreate_rule) == rest[0]
                        &&& op->NodeCreate_attrs == attrs
                    },
                }
            },
        },
{
    lemma_at(s, 0, 8);
}

/// What a remote edge carries: the source's partition and node, its version, the kind of what is
/// sent, the causal frontier, the authority behind it, its class, one byte of capabilities, and its
/// scope. The scope has no root of its own.
pub proof fn law_reads_provenance(s: Seq<u8>)
    requires
        s.len() <= usize::MAX,
    ensures
        s.len() < 8 ==> take_provenance(s) is Err && take_provenance(s)->Err_0 == (
        DispatchError::PayloadTruncated { needed: 8, available: s.len() as usize }),
        8 <= s.len() < 16 ==> take_provenance(s) is Err && take_provenance(s)->Err_0 == (
        DispatchError::PayloadTruncated { needed: 8, available: (s.len() - 8) as usize }),
        s.len() == 16 ==> take_provenance(s) is Err && take_provenance(s)->Err_0 == (
        DispatchError::PayloadTruncated { needed: 1, available: 0 }),
        17 <= s.len() < 25 ==> take_provenance(s) is Err && take_provenance(s)->Err_0 == (
        DispatchError::PayloadTruncated { needed: 8, available: (s.len() - 17) as usize }),
        s.len() >= 25 ==> take_provenance(s) is Ok && {
            let ((authority, class, capability, scope), rest) = take_provenance(s)->Ok_0;
            &&& reads(authority.0 as int, s, 0, 8)
            &&& authority.0 < 0x1_0000_0000_0000_0000
            &&& reads(class.0 as int, s, 8, 8)
            &&& capability.0 == s[16]
            &&& reads(scope.scope_bits as int, s, 17, 8)
            &&& scope.root.0 == 0
            &&& rest == s.skip(25)
        },
{
    lemma_at(s, 0, 8);
    if s.len() >= 8 {
        lemma_at(s, 8, 8);
    }
    if s.len() >= 16 {
        lemma_at(s, 16, 1);
    }
    if s.len() >= 17 {
        lemma_at(s, 17, 8);
    }
}

/// The kind of what a remote edge sends: 0 for something definite, 1 for a zero, whose own kind is a
/// byte from 0 to 5.
pub proof fn law_reads_payload_kind(s: Seq<u8>)
    requires
        0 < s.len() <= usize::MAX,
    ensures
        ({
            let r = take_payload_kind(s);
            &&& s[0] == 0 ==> r == Ok::<_, DispatchError>((PayloadKind::Definite, s.skip(1)))
            &&& s[0] > 1 ==> r is Err && r->Err_0 == DispatchError::UnknownPayloadKind(s[0])
            &&& s[0] == 1 && s.len() == 1 ==> r is Err && r->Err_0 == (
            DispatchError::PayloadTruncated { needed: 1, available: 0 })
            &&& s[0] == 1 && s.len() > 1 && s[1] > 5 ==> r is Err && r->Err_0
                == DispatchError::UnknownZeroKind(s[1])
            &&& s[0] == 1 && s.len() > 1 && s[1] <= 5 ==> r is Ok && {
                &&& r->Ok_0.0 is TypedZero
                &&& zero_kind_byte(r->Ok_0.0->TypedZero_0) == s[1]
                &&& r->Ok_0.1 == s.skip(2)
            }
        }),
{
    lemma_at(s, 0, 1);
    if s.len() > 1 {
        lemma_at(s, 1, 1);
    }
}

/// A remote edge, part after part.
pub proof fn law_reads_remote_edge(port: PortKind, s: Seq<u8>)
    requires
        s.len() <= usize::MAX,
    ensures
        ({
            let r = take_remote_dep(port, s);
            &&& s.len() < 8 ==> r is Err && r->Err_0 == (DispatchError::PayloadTruncated {
                needed: 8,
                available: s.len() as usize,
            })
            &&& 8 <= s.len() < 16 ==> r is Err && r->Err_0 == (DispatchError::PayloadTruncated {
                needed: 8,
                available: (s.len() - 8) as usize,
            })
            &&& 16 <= s.len() < 24 ==> r is Err && r->Err_0 == (DispatchError::PayloadTruncated {
                needed: 8,
                available: (s.len() - 16) as usize,
            })
            &&& s.len() >= 24 ==> match take_payload_kind(s.skip(24)) {
                Err(e) => r is Err && r->Err_0 == e,
                Ok((kind, t)) => {
                    &&& t.len() < 2 ==> r is Err && r->Err_0 == (DispatchError::PayloadTruncated {
                        needed: 2,
                        available: t.len() as usize,
                    })
                    &&& t.len() >= 2 ==> match take_frontier(
                        Map::empty(),
                        (t[0] + 256 * t[1]) as nat,
                        t.skip(2),
                    ) {
                        Err(e) => r is Err && r->Err_0 == e,
                        Ok((frontier, u)) => match take_provenance(u) {
                            Err(e) => r is Err && r->Err_0 == e,
                            Ok(((authority, class, capability, scope), rest)) => r is Ok && {
                                let dep = r->Ok_0.0;
                                &&& reads(dep.source_partition.0 as int, s, 0, 8)
                                &&& dep.source_partition.0 < 0x1_0000_0000_0000_0000
                                &&& reads(dep.source_uid.0 as int, s, 8, 8)
                                &&& dep.source_uid.0 < 0x1_0000_0000_0000_0000
                                &&& reads(dep.source_version as int, s, 16, 8)
                                &&& dep.port_kind == port
                                &&& dep.payload_kind == kind
                                &&& dep.causal_frontier == frontier
                                &&& dep.source_authority == authority
                                &&& dep.emitted_class == class
                                &&& dep.capability == capability
                                &&& dep.causal_scope == scope
                                &&& r->Ok_0.1 == rest
                            },
                        },
                    }
                },
            }
        }),
{
    lemma_at(s, 0, 8);
    if s.len() >= 8 {
        lemma_at(s, 8, 8);
    }
    if s.len() >= 16 {
        lemma_at(s, 16, 8);
    }
    if s.len() >= 24 {
        if let Ok((kind, t)) = take_payload_kind(s.skip(24)) {
            if t.len() >= 2 {
                lemma_at(t, 0, 2);
                reveal_with_fuel(le_value, 3);
                assert(t.take(2).drop_first()[0] == t[1]);
            }
        }
    }
}

/// An edge: its identity, source and target, a byte for the kind of dependency, a byte for the kind
/// of port, the name of the port, and then what a remote edge carries. A local edge whose port has
/// no name has no port.
pub proof fn law_reads_edge(s: Seq<u8>)
    requires
        s.len() <= usize::MAX,
    ensures
        s.len() < 8 ==> ends_in(op_in(2, s), s, 0, 8),
        8 <= s.len() < 16 ==> ends_in(op_in(2, s), s, 8, 8),
        16 <= s.len() < 24 ==> ends_in(op_in(2, s), s, 16, 8),
        24 <= s.len() < 26 ==> ends_in(op_in(2, s), s, s.len() as int, 1),
        s.len() >= 26 ==> match take_text(s.skip(26)) {
            Err(e) => op_in(2, s) == Err::<IsaOpView, _>(e),
            Ok((name, rest)) => {
                let r = op_in(2, s);
                let op = r->Ok_0;
                &&& s[25] > 3 ==> r == Err::<IsaOpView, _>(DispatchError::UnknownPortKind(s[25]))
                &&& s[25] <= 3 && s[24] > 1 ==> r == Err::<IsaOpView, _>(
                    DispatchError::UnknownDepKind(s[24]),
                )
                &&& s[25] <= 3 && s[24] == 0 ==> r is Ok && op is EdgeConnect
                    && op->EdgeConnect_dep is Local && {
                    let port = op->EdgeConnect_dep->Local_0;
                    &&& port is None <==> name.len() == 0
                    &&& port matches Some((n, kind)) ==> n == name && port_kind_byte(kind) == s[25]
                }
                &&& s[25] <= 3 && s[24] == 1 ==> exists|kind: PortKind| #[trigger]
                    port_kind_byte(kind) == s[25] && match take_remote_dep(kind, rest) {
                        Err(e) => r == Err::<IsaOpView, _>(e),
                        Ok((remote, _)) => r is Ok && op is EdgeConnect && op->EdgeConnect_dep
                            == DepKindView::Remote(remote),
                    }
                &&& r is Ok ==> {
                    &&& op is EdgeConnect
                    &&& reads(op->EdgeConnect_id.0 as int, s, 0, 8)
                    &&& op->EdgeConnect_id.0 < 0x1_0000_0000_0000_0000
                    &&& reads(op->EdgeConnect_src.0 as int, s, 8, 8)
                    &&& op->EdgeConnect_src.0 < 0x1_0000_0000_0000_0000
                    &&& reads(op->EdgeConnect_tgt.0 as int, s, 16, 8)
                    &&& op->EdgeConnect_tgt.0 < 0x1_0000_0000_0000_0000
                    &&& op->EdgeConnect_typ == seq!['d', 'e', 'p']
                }
            },
        },
{
    lemma_at(s, 0, 8);
    if s.len() >= 8 {
        lemma_at(s, 8, 8);
    }
    if s.len() >= 16 {
        lemma_at(s, 16, 8);
    }
    if s.len() >= 24 {
        lemma_at(s, 24, 1);
    }
    if s.len() >= 25 {
        lemma_at(s, 25, 1);
    }
    if s.len() >= 26 && s[25] <= 3 {
        let kind = port_kind_of(s[25])->0;
        assert(port_kind_byte(kind) == s[25]);
    }
}

// ── Writing ──────────────────────────────────────────────────────────────────

/// The low half of an identity, which is what travels of it.
pub open spec fn low(id: u128) -> int {
    (id % 0x1_0000_0000_0000_0000) as int
}

/// The opcode of each instruction.
pub proof fn law_opcodes(op: IsaOpView)
    ensures
        1 <= opcode_of(op) <= 18,
        opcode_of(op) == 1 <==> op is NodeCreate,
        opcode_of(op) == 2 <==> op is EdgeConnect,
        opcode_of(op) == 3 <==> op is SetValue,
        opcode_of(op) == 4 <==> op is Propagate,
        opcode_of(op) == 5 <==> op is Subscribe,
        opcode_of(op) == 6 <==> op is DelNode,
        opcode_of(op) == 7 <==> op is DelEdge,
        opcode_of(op) == 8 <==> op is Demand,
        opcode_of(op) == 9 <==> op is SetMode,
        opcode_of(op) == 10 <==> op is Reflect,
        opcode_of(op) == 11 <==> op is Stabilize,
        opcode_of(op) == 12 <==> op is PartitionCreate,
        opcode_of(op) == 13 <==> op is PartitionBind,
        opcode_of(op) == 14 <==> op is SetPartitionAuthority,
        opcode_of(op) == 15 <==> op is SetEdgeLabel,
        opcode_of(op) == 16 <==> op is SetStabilizationConfig,
        opcode_of(op) == 17 <==> op is SetExecutionPolicy,
        opcode_of(op) == 18 <==> op is RegionDeclare,
{
}

/// The byte of each rule, port, mode and kind, and which bytes stand for none.
pub proof fn law_byte_tables(b: u8)
    ensures
        node_kind_byte(NodeKind::Input) == 0,
        node_kind_byte(NodeKind::Computed(ComputeRule::Identity)) == 1,
        node_kind_byte(NodeKind::Computed(ComputeRule::MvNeg)) == 2,
        node_kind_byte(NodeKind::Computed(ComputeRule::MvAdd)) == 3,
        node_kind_byte(NodeKind::Computed(ComputeRule::MvMul)) == 4,
        node_kind_byte(NodeKind::Computed(ComputeRule::MvSub)) == 5,
        node_kind_byte(NodeKind::Computed(ComputeRule::Merge)) == 6,
        node_kind_byte(NodeKind::Computed(ComputeRule::MeetAll)) == 7,
        node_kind_byte(NodeKind::Computed(ComputeRule::JoinAny)) == 8,
        node_kind_byte(NodeKind::Computed(ComputeRule::BochvarFold)) == 9,
        node_kind_byte(NodeKind::Computed(ComputeRule::PowerProduct)) == 10,
        node_kind_of(b) is Some <==> b <= 10,
        node_kind_of(b) matches Some(k) ==> node_kind_byte(k) == b,
        port_kind_byte(PortKind::Signal) == 0,
        port_kind_byte(PortKind::Effort) == 1,
        port_kind_byte(PortKind::Flow) == 2,
        port_kind_byte(PortKind::Bond) == 3,
        port_kind_of(b) is Some <==> b <= 3,
        port_kind_of(b) matches Some(k) ==> port_kind_byte(k) == b,
        zero_kind_byte(ZeroKind::Conflict) == 0,
        zero_kind_byte(ZeroKind::Incomplete) == 1,
        zero_kind_byte(ZeroKind::Ambiguous) == 2,
        zero_kind_byte(ZeroKind::Retracted) == 3,
        zero_kind_byte(ZeroKind::BoundaryViolation) == 4,
        zero_kind_byte(ZeroKind::VersionSkew) == 5,
        zero_kind_of(b) is Some <==> b <= 5,
        zero_kind_of(b) matches Some(k) ==> zero_kind_byte(k) == b,
        exec_mode_byte(ExecMode::Eager) == 0,
        exec_mode_byte(ExecMode::Lazy) == 1,
        exec_mode_byte(ExecMode::Stabilizing) == 2,
        exec_mode_of(b) is Some <==> b <= 2,
        exec_mode_of(b) matches Some(k) ==> exec_mode_byte(k) == b,
        stability_byte(StabilityContract::Pinned) == 0,
        stability_byte(StabilityContract::EpochTracked) == 1,
        stability_of(b) is Some <==> b <= 1,
        stability_of(b) matches Some(k) ==> stability_byte(k) == b,
        compile_byte(CompilePolicy::Eager) == 0,
        compile_byte(CompilePolicy::Lazy) == 1,
        compile_byte(CompilePolicy::Never) == 2,
        compile_of(b) is Some <==> b <= 2,
        compile_of(b) matches Some(k) ==> compile_byte(k) == b,
        signed_byte(ternary_byte(T::Neg)) == 255,
        signed_byte(ternary_byte(T::Zero)) == 0,
        signed_byte(ternary_byte(T::Pos)) == 1,
{
}

/// A text is written as the number of its bytes, in two bytes, and these bytes.
pub proof fn law_writes_text(t: Seq<char>)
    requires
        encode_utf8(t).len() < 0x1_0000,
    ensures
        text_bytes(t).len() == 2 + encode_utf8(t).len(),
        reads(encode_utf8(t).len() as int, text_bytes(t), 0, 2),
        text_bytes(t).skip(2) == encode_utf8(t),
{
    broadcast use lemma_le_bytes_len;

    assert(text_bytes(t).subrange(0, 2) =~= le_bytes(encode_utf8(t).len(), 2));
    assert(text_bytes(t).skip(2) =~= encode_utf8(t));
}

/// An attribute's value is written as its tag and, for each kind, its bytes.
pub proof fn law_writes_attribute(b: bool, i: i64, f: u64, t: Seq<char>, v: T)
    ensures
        val_bytes(ValView::Bool(b)) == seq![1u8, if b { 1u8 } else { 0u8 }],
        val_bytes(ValView::Int(i)) == seq![2u8] + le_bytes(
            (i as int % 0x1_0000_0000_0000_0000) as nat,
            8,
        ),
        val_bytes(ValView::Float(f)) == seq![3u8] + le_bytes(canonical_float(f) as nat, 8),
        val_bytes(ValView::Text(t)) == seq![4u8] + text_bytes(t),
        val_bytes(ValView::Ternary(v)) == seq![
            6u8,
            if v == T::Pos {
                1u8
            } else if v == T::Zero {
                0u8
            } else {
                255u8
            },
        ],
{
}

/// Attributes are written as their number, in two bytes, and then key and value of each, in their
/// order.
pub proof fn law_writes_attributes(entries: Seq<(Seq<char>, ValView)>)
    requires
        entries.len() < 0x1_0000,
    ensures
        attrs_bytes(entries) == le_bytes(entries.len(), 2) + entries_bytes(entries),
        entries.len() == 0 ==> entries_bytes(entries) == Seq::<u8>::empty(),
        entries.len() > 0 ==> entries_bytes(entries) == text_bytes(entries[0].0) + val_bytes(
            entries[0].1,
        ) + entries_bytes(entries.skip(1)),
{
    if entries.len() > 0 {
        assert(entries.skip(1) =~= entries.drop_first());
        assert(text_bytes(entries[0].0) + val_bytes(entries[0].1) + entries_bytes(entries.skip(1))
            =~= text_bytes(entries[0].0) + (val_bytes(entries[0].1) + entries_bytes(
            entries.drop_first(),
        )));
    }
}

/// Identities are written eight bytes apart, in their order.
pub proof fn law_writes_identities(ids: Seq<Uid>, i: int)
    ensures
        uids_bytes(ids).len() == 8 * ids.len(),
        0 <= i < ids.len() ==> reads(low(ids[i].0), uids_bytes(ids), 8 * i, 8),
    decreases ids.len(),
{
    broadcast use lemma_le_bytes_len;

    if ids.len() > 0 {
        let tail = ids.drop_first();
        law_writes_identities(tail, i - 1);
        let s = uids_bytes(ids);
        if i == 0 {
            assert(s.subrange(0, 8) =~= le_bytes(low(ids[0].0) as nat, 8));
        } else if 0 < i < ids.len() {
            assert(tail[i - 1] == ids[i]);
            assert(s.subrange(8 * i, 8 * i + 8) =~= uids_bytes(tail).subrange(
                8 * (i - 1),
                8 * (i - 1) + 8,
            ));
        }
    }
}

/// A causal frontier is written as its size, in two bytes, and then sixteen bytes for each
/// partition, identity and clock, the lowest identity first.
pub proof fn law_writes_frontier(frontier: Map<PartitionId, u64>, i: int)
    requires
        frontier.dom().finite(),
        frontier.dom().len() < 0x1_0000,
        forall|k: PartitionId| #[trigger]
            frontier.contains_key(k) ==> k.0 < 0x1_0000_0000_0000_0000,
    ensures
        ({
            let keys = sorted_keys(frontier.dom());
            let s = frontier_bytes(frontier);
            &&& keys.len() == frontier.dom().len()
            &&& s.len() == 2 + 16 * keys.len()
            &&& reads(keys.len() as int, s, 0, 2)
            &&& 0 <= i < keys.len() ==> {
                &&& frontier.contains_key(keys[i])
                &&& reads(keys[i].0 as int, s, 2 + 16 * i, 8)
                &&& reads(frontier[keys[i]] as int, s, 10 + 16 * i, 8)
            }
        }),
{
    broadcast use lemma_le_bytes_len;

    let keys = sorted_keys(frontier.dom());
    law_keys_in_order(frontier.dom());
    lemma_writes_clocks(frontier, keys, i);
    let s = frontier_bytes(frontier);
    let t = clocks_bytes(frontier, keys);
    assert(s.subrange(0, 2) =~= le_bytes(keys.len(), 2));
    if 0 <= i < keys.len() {
        assert(keys.contains(keys[i]));
        assert(frontier.contains_key(keys[i]));
        assert(s.subrange(2 + 16 * i, 2 + 16 * i + 8) =~= t.subrange(16 * i, 16 * i + 8));
        assert(s.subrange(10 + 16 * i, 10 + 16 * i + 8) =~= t.subrange(
            8 + 16 * i,
            8 + 16 * i + 8,
        ));
    }
}

proof fn lemma_writes_clocks(frontier: Map<PartitionId, u64>, keys: Seq<PartitionId>, i: int)
    ensures
        clocks_bytes(frontier, keys).len() == 16 * keys.len(),
        0 <= i < keys.len() ==> reads(low(keys[i].0), clocks_bytes(frontier, keys), 16 * i, 8)
            && reads(frontier[keys[i]] as int, clocks_bytes(frontier, keys), 8 + 16 * i, 8),
    decreases keys.len(),
{
    broadcast use lemma_le_bytes_len;

    if keys.len() > 0 {
        let tail = keys.drop_first();
        lemma_writes_clocks(frontier, tail, i - 1);
        let s = clocks_bytes(frontier, keys);
        let t = clocks_bytes(frontier, tail);
        if i == 0 {
            assert(s.subrange(0, 8) =~= le_bytes(low(keys[0].0) as nat, 8));
            assert(s.subrange(8, 16) =~= le_bytes(frontier[keys[0]] as nat, 8));
        } else if 0 < i < keys.len() {
            assert(tail[i - 1] == keys[i]);
            assert(s.subrange(16 * i, 16 * i + 8) =~= t.subrange(
                16 * (i - 1),
                16 * (i - 1) + 8,
            ));
            assert(s.subrange(8 + 16 * i, 8 + 16 * i + 8) =~= t.subrange(
                8 + 16 * (i - 1),
                8 + 16 * (i - 1) + 8,
            ));
        }
    }
}

/// Keys in order are all the keys, each once, the lowest first.
pub proof fn law_keys_in_order(members: Set<PartitionId>)
    requires
        members.finite(),
    ensures
        sorted_keys(members).len() == members.len(),
        sorted_keys(members).to_set() == members,
        forall|i: int, j: int|
            0 <= i < j < members.len() ==> (#[trigger] sorted_keys(members)[i]).0 < (
            #[trigger] sorted_keys(members)[j]).0,
{
    lemma_sorted_keys_exist(members);
}

/// It is written as the eight bytes of its identity.
pub proof fn law_writes_propagate(op: IsaOpView)
    requires
        op is Propagate,
    ensures
        ({
            let s = payload_of(op);
            &&& s.len() == 8
            &&& reads(low(op->Propagate_node.0), s, 0, 8)
        }),
{
    broadcast use lemma_le_bytes_len;

    let s = payload_of(op);
    assert(s.subrange(0, 8) =~= le_bytes((low(op->Propagate_node.0)) as nat, 8));
}

/// It is written as the eight bytes of its identity.
pub proof fn law_writes_node_removal(op: IsaOpView)
    requires
        op is DelNode,
    ensures
        ({
            let s = payload_of(op);
            &&& s.len() == 8
            &&& reads(low(op->DelNode_id.0), s, 0, 8)
        }),
{
    broadcast use lemma_le_bytes_len;

    let s = payload_of(op);
    assert(s.subrange(0, 8) =~= le_bytes((low(op->DelNode_id.0)) as nat, 8));
}

/// It is written as the eight bytes of its identity.
pub proof fn law_writes_edge_removal(op: IsaOpView)
    requires
        op is DelEdge,
    ensures
        ({
            let s = payload_of(op);
            &&& s.len() == 8
            &&& reads(low(op->DelEdge_id.0), s, 0, 8)
        }),
{
    broadcast use lemma_le_bytes_len;

    let s = payload_of(op);
    assert(s.subrange(0, 8) =~= le_bytes((low(op->DelEdge_id.0)) as nat, 8));
}

/// It is written as the eight bytes of its identity.
pub proof fn law_writes_demand(op: IsaOpView)
    requires
        op is Demand,
    ensures
        ({
            let s = payload_of(op);
            &&& s.len() == 8
            &&& reads(low(op->Demand_node.0), s, 0, 8)
        }),
{
    broadcast use lemma_le_bytes_len;

    let s = payload_of(op);
    assert(s.subrange(0, 8) =~= le_bytes((low(op->Demand_node.0)) as nat, 8));
}

/// It is written as the eight bytes of its identity.
pub proof fn law_writes_reflection(op: IsaOpView)
    requires
        op is Reflect,
    ensures
        ({
            let s = payload_of(op);
            &&& s.len() == 8
            &&& reads(low(op->Reflect_node.0), s, 0, 8)
        }),
{
    broadcast use lemma_le_bytes_len;

    let s = payload_of(op);
    assert(s.subrange(0, 8) =~= le_bytes((low(op->Reflect_node.0)) as nat, 8));
}

/// A subscription is written as source and subscriber.
pub proof fn law_writes_subscription(op: IsaOpView)
    requires
        op is Subscribe,
    ensures
        ({
            let s = payload_of(op);
            &&& s.len() == 16
            &&& reads(low(op->Subscribe_source.0), s, 0, 8)
            &&& reads(low(op->Subscribe_subscriber.0), s, 8, 8)
        }),
{
    broadcast use lemma_le_bytes_len;

    let s = payload_of(op);
    assert(s.subrange(0, 8) =~= le_bytes((low(op->Subscribe_source.0)) as nat, 8));
    assert(s.subrange(8, 16) =~= le_bytes((low(op->Subscribe_subscriber.0)) as nat, 8));
}

/// A binding is written as node and partition.
pub proof fn law_writes_binding(op: IsaOpView)
    requires
        op is PartitionBind,
    ensures
        ({
            let s = payload_of(op);
            &&& s.len() == 16
            &&& reads(low(op->PartitionBind_node.0), s, 0, 8)
            &&& reads(low(op->PartitionBind_partition.0), s, 8, 8)
        }),
{
    broadcast use lemma_le_bytes_len;

    let s = payload_of(op);
    assert(s.subrange(0, 8) =~= le_bytes((low(op->PartitionBind_node.0)) as nat, 8));
    assert(s.subrange(8, 16) =~= le_bytes((low(op->PartitionBind_partition.0)) as nat, 8));
}

/// A value is written as the node and a byte.
pub proof fn law_writes_value(op: IsaOpView)
    requires
        op is SetValue,
    ensures
        ({
            let s = payload_of(op);
            &&& s.len() == 9
            &&& reads(low(op->SetValue_node.0), s, 0, 8)
            &&& s[8] == (match op->SetValue_val {
                T::Neg => 255u8,
                T::Zero => 0u8,
                T::Pos => 1u8,
            })
        }),
{
    broadcast use lemma_le_bytes_len;

    let s = payload_of(op);
    assert(s.subrange(0, 8) =~= le_bytes((low(op->SetValue_node.0)) as nat, 8));
}

/// A mode is written as the node and a byte.
pub proof fn law_writes_mode(op: IsaOpView)
    requires
        op is SetMode,
    ensures
        ({
            let s = payload_of(op);
            &&& s.len() == 9
            &&& reads(low(op->SetMode_node.0), s, 0, 8)
            &&& s[8] == exec_mode_byte(op->SetMode_mode)
        }),
{
    broadcast use lemma_le_bytes_len;

    let s = payload_of(op);
    assert(s.subrange(0, 8) =~= le_bytes((low(op->SetMode_node.0)) as nat, 8));
}

/// A new partition is written as its identity, the root of its authority, its class and its scope.
pub proof fn law_writes_partition(op: IsaOpView)
    requires
        op is PartitionCreate,
    ensures
        ({
            let s = payload_of(op);
            &&& s.len() == 32
            &&& reads(low(op->PartitionCreate_id.0), s, 0, 8)
            &&& reads(low(op->PartitionCreate_authority_root.0), s, 8, 8)
            &&& reads(op->PartitionCreate_lattice_class.0 as int, s, 16, 8)
            &&& reads(op->PartitionCreate_causal_domain.scope_bits as int, s, 24, 8)
        }),
{
    broadcast use lemma_le_bytes_len;

    let s = payload_of(op);
    assert(s.subrange(0, 8) =~= le_bytes((low(op->PartitionCreate_id.0)) as nat, 8));
    assert(s.subrange(8, 16) =~= le_bytes((low(op->PartitionCreate_authority_root.0)) as nat, 8));
    assert(s.subrange(16, 24) =~= le_bytes((op->PartitionCreate_lattice_class.0 as int) as nat, 8));
    assert(s.subrange(24, 32) =~= le_bytes((op->PartitionCreate_causal_domain.scope_bits as int) as nat, 8));
}

/// The authority of a partition is written as the partition, its class and its scope.
pub proof fn law_writes_authority(op: IsaOpView)
    requires
        op is SetPartitionAuthority,
    ensures
        ({
            let s = payload_of(op);
            &&& s.len() == 24
            &&& reads(low(op->SetPartitionAuthority_partition.0), s, 0, 8)
            &&& reads(op->SetPartitionAuthority_lattice_class.0 as int, s, 8, 8)
            &&& reads(op->SetPartitionAuthority_causal_domain.scope_bits as int, s, 16, 8)
        }),
{
    broadcast use lemma_le_bytes_len;

    let s = payload_of(op);
    assert(s.subrange(0, 8) =~= le_bytes((low(op->SetPartitionAuthority_partition.0)) as nat, 8));
    assert(s.subrange(8, 16) =~= le_bytes((op->SetPartitionAuthority_lattice_class.0 as int) as nat, 8));
    assert(s.subrange(16, 24) =~= le_bytes((op->SetPartitionAuthority_causal_domain.scope_bits as int) as nat, 8));
}

/// The label of an edge is written as source, target, class, the low byte of its capabilities, and scope.
pub proof fn law_writes_label(op: IsaOpView)
    requires
        op is SetEdgeLabel,
    ensures
        ({
            let s = payload_of(op);
            &&& s.len() == 33
            &&& reads(low(op->SetEdgeLabel_source.0), s, 0, 8)
            &&& reads(low(op->SetEdgeLabel_target.0), s, 8, 8)
            &&& reads(op->SetEdgeLabel_label.lattice_class.0 as int, s, 16, 8)
            &&& s[24] == op->SetEdgeLabel_label.capability.0 % 256
            &&& reads(op->SetEdgeLabel_label.causal_scope.scope_bits as int, s, 25, 8)
        }),
{
    broadcast use lemma_le_bytes_len;

    let s = payload_of(op);
    assert(s.subrange(0, 8) =~= le_bytes((low(op->SetEdgeLabel_source.0)) as nat, 8));
    assert(s.subrange(8, 16) =~= le_bytes((low(op->SetEdgeLabel_target.0)) as nat, 8));
    assert(s.subrange(16, 24) =~= le_bytes((op->SetEdgeLabel_label.lattice_class.0 as int) as nat, 8));
    assert(s.subrange(25, 33) =~= le_bytes((op->SetEdgeLabel_label.causal_scope.scope_bits as int) as nat, 8));
}

/// How a node stabilizes is written as the node, a byte each for strategy and domain, four bytes for the
/// budget, and a byte for the convergence.
pub proof fn law_writes_stabilization_config(op: IsaOpView)
    requires
        op is SetStabilizationConfig,
    ensures
        ({
            let s = payload_of(op);
            &&& s.len() == 15
            &&& reads(low(op->SetStabilizationConfig_node.0), s, 0, 8)
            &&& s[8] == (match op->SetStabilizationConfig_config.strategy {
                RewriteStrategy::FullL3 => 0,
                RewriteStrategy::Restricted(v) => v % 256,
            })
            &&& s[9] == (match op->SetStabilizationConfig_config.domain {
                StabilizationDomain::LocalOnly => 0u8,
                StabilizationDomain::Federated => 1u8,
                StabilizationDomain::Inherit => 2u8,
            })
            &&& reads(op->SetStabilizationConfig_config.budget.max_iterations as int % 0x1_0000_0000, s, 10, 4)
            &&& s[14] == (match op->SetStabilizationConfig_config.convergence_policy {
                ConvergencePolicy::Canonical => 0u8,
                ConvergencePolicy::Witness => 1u8,
                ConvergencePolicy::BudgetExhausted => 2u8,
            })
        }),
{
    broadcast use lemma_le_bytes_len;

    let s = payload_of(op);
    assert(s.subrange(0, 8) =~= le_bytes((low(op->SetStabilizationConfig_node.0)) as nat, 8));
    assert(s.subrange(10, 14) =~= le_bytes((op->SetStabilizationConfig_config.budget.max_iterations as int % 0x1_0000_0000) as nat, 4));
}

/// How a node is executed is written as the node and a byte each for priority and failures.
pub proof fn law_writes_execution_policy(op: IsaOpView)
    requires
        op is SetExecutionPolicy,
    ensures
        ({
            let s = payload_of(op);
            &&& s.len() == 10
            &&& reads(low(op->SetExecutionPolicy_node.0), s, 0, 8)
            &&& s[8] == (match op->SetExecutionPolicy_policy.queue_priority {
                QueuePriority::Normal => 0u8,
                QueuePriority::High => 1u8,
                QueuePriority::Low => 2u8,
            })
            &&& s[9] == (match op->SetExecutionPolicy_policy.retry_policy {
                RetryPolicy::Fail => 0u8,
                RetryPolicy::Retry { .. } => 1u8,
            })
        }),
{
    broadcast use lemma_le_bytes_len;

    let s = payload_of(op);
    assert(s.subrange(0, 8) =~= le_bytes((low(op->SetExecutionPolicy_node.0)) as nat, 8));
}

/// A stabilization is written as the number of its nodes, in four bytes, and the nodes.
pub proof fn law_writes_stabilization(region: Option<Seq<Uid>>)
    ensures
        region is None ==> payload_of(IsaOpView::Stabilize { region }) == seq![0u8, 0u8, 0u8, 0u8],
        region matches Some(ids) ==> ids.len() < 0x1_0000_0000 ==> payload_of(
            IsaOpView::Stabilize { region },
        ) == le_bytes(ids.len(), 4) + uids_bytes(ids),
{
    reveal_with_fuel(le_bytes, 5);
    if region is None {
        assert(le_bytes(0, 4) =~= seq![0u8, 0u8, 0u8, 0u8]);
    }
}

/// A node is written as its identity, its type, the byte of its rule, and its attributes.
pub proof fn law_writes_node(op: IsaOpView)
    requires
        op is NodeCreate,
    ensures
        payload_of(op) == le_bytes(low(op->NodeCreate_id.0) as nat, 8) + text_bytes(
            op->NodeCreate_typ,
        ) + seq![node_kind_byte(op->NodeCreate_rule)] + attrs_bytes(op->NodeCreate_attrs),
{
    assert(payload_of(op) =~= le_bytes(low(op->NodeCreate_id.0) as nat, 8) + text_bytes(
        op->NodeCreate_typ,
    ) + seq![node_kind_byte(op->NodeCreate_rule)] + attrs_bytes(op->NodeCreate_attrs));
}

/// An edge is written as its identity, source and target, and its dependency: a byte that tells
/// local from remote, the byte of the port, its name, and what a remote edge carries.
pub proof fn law_writes_edge(op: IsaOpView)
    requires
        op is EdgeConnect,
    ensures
        payload_of(op) == le_bytes(low(op->EdgeConnect_id.0) as nat, 8) + (le_bytes(
            low(op->EdgeConnect_src.0) as nat,
            8,
        ) + (le_bytes(low(op->EdgeConnect_tgt.0) as nat, 8) + dep_bytes(op->EdgeConnect_dep))),
        op->EdgeConnect_dep matches DepKindView::Local(port) ==> dep_bytes(op->EdgeConnect_dep)
            == match port {
            None => seq![0u8, 0u8, 0u8, 0u8],
            Some((name, kind)) => seq![0u8, port_kind_byte(kind)] + text_bytes(name),
        },
        op->EdgeConnect_dep matches DepKindView::Remote(r) ==> dep_bytes(op->EdgeConnect_dep)
            == seq![1u8, port_kind_byte(r.port_kind)] + (seq![0u8, 0u8] + (le_bytes(
            low(r.source_partition.0) as nat,
            8,
        ) + (le_bytes(low(r.source_uid.0) as nat, 8) + (le_bytes(r.source_version as nat, 8) + ((
        match r.payload_kind {
            PayloadKind::Definite => seq![0u8],
            PayloadKind::TypedZero(z) => seq![1u8, zero_kind_byte(z)],
        }) + (frontier_bytes(r.causal_frontier) + (le_bytes(low(r.source_authority.0) as nat, 8) + (
        le_bytes(r.emitted_class.0 as nat, 8) + (seq![(r.capability.0 % 256) as u8] + le_bytes(
            r.causal_scope.scope_bits as nat,
            8,
        )))))))))),
{
    lemma_no_text();
    if op->EdgeConnect_dep == DepKindView::Local(None) {
        assert(seq![0u8, 0u8] + seq![0u8, 0u8] =~= seq![0u8, 0u8, 0u8, 0u8]);
    }
}

proof fn lemma_no_text()
    ensures
        text_bytes(Seq::empty()) == seq![0u8, 0u8],
{
    reveal_with_fuel(le_bytes, 3);
    assert(encode_utf8(Seq::<char>::empty()) =~= Seq::<u8>::empty());
    assert(text_bytes(Seq::empty()) =~= seq![0u8, 0u8]);
}

/// A region is written as its root, its boundary, and a byte each for stability and compilation.
pub proof fn law_writes_region(op: IsaOpView)
    requires
        op is RegionDeclare,
    ensures
        payload_of(op) == le_bytes(low(op->RegionDeclare_root.0) as nat, 8) + boundary_bytes(
            op->RegionDeclare_boundary,
        ) + seq![
            stability_byte(op->RegionDeclare_stability),
            compile_byte(op->RegionDeclare_compile),
        ],
        op->RegionDeclare_boundary matches RegionBoundaryView::DepClosure { max_depth }
            ==> boundary_bytes(op->RegionDeclare_boundary) == seq![0u8] + le_bytes(
            (max_depth as int % 0x1_0000_0000) as nat,
            4,
        ),
        op->RegionDeclare_boundary matches RegionBoundaryView::ExplicitSet(ids) ==> ids.len()
            < 0x1_0000_0000 ==> boundary_bytes(op->RegionDeclare_boundary) == seq![1u8] + le_bytes(
            ids.len(),
            4,
        ) + uids_bytes(ids),
        op->RegionDeclare_boundary matches RegionBoundaryView::PartitionScoped(pid)
            ==> boundary_bytes(op->RegionDeclare_boundary) == seq![2u8] + le_bytes(
            low(pid.0) as nat,
            8,
        ),
{
    assert(payload_of(op) =~= le_bytes(low(op->RegionDeclare_root.0) as nat, 8) + boundary_bytes(
        op->RegionDeclare_boundary,
    ) + seq![
        stability_byte(op->RegionDeclare_stability),
        compile_byte(op->RegionDeclare_compile),
    ]);
    if let RegionBoundaryView::ExplicitSet(ids) = op->RegionDeclare_boundary {
        assert(boundary_bytes(op->RegionDeclare_boundary) =~= seq![1u8] + u32_bytes(
            ids.len() as int,
        ) + uids_bytes(ids));
    }
}


} // verus!

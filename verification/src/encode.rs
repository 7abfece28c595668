//! The wire encoder: instructions, records and stream preambles as bytes.
//!
//! Every integer is little-endian, a text is preceded by its length in bytes, attributes come
//! in the lexicographic order of their keys, and a NaN is written in canonical form.

use vstd::prelude::*;

use crate::attr::{Attrs, Val, canonical_float};
use crate::bytes::{
    lemma_le_bytes_len, push_le, put_le, signed_byte, signed_to_byte, signed_to_word,
    signed_word,
};
use crate::decode::{SUPPORTED_VERSION, magic};
use crate::grammar::{
    attrs_bytes, boundary_bytes, clocks_bytes, compile_byte, convergence_byte, dep_bytes,
    entries_bytes, exec_mode_byte, frontier_bytes, node_kind_byte, opcode_of, payload_kind_bytes,
    payload_of, pid_bytes, port_kind_byte, priority_byte, remote_bytes, retry_byte,
    stability_byte, stabilization_domain_byte, strategy_byte, ternary_byte, text_bytes,
    u16_bytes, u32_bytes, u64_bytes, uid_bytes, uids_bytes, val_bytes, wire_id, zero_kind_byte,
};
use crate::isa::{
    CompilePolicy, ComputeRule, ConvergencePolicy, DepKind, ExecMode, IsaOp, IsaOpView, NodeKind,
    PartitionId, PayloadKind, PortKind, QueuePriority, RegionBoundary, RemoteDep, RetryPolicy,
    RewriteStrategy, StabilityContract, StabilizationDomain, T, Uid, VectorClock, ZeroKind,
};
use crate::{PathId, SessionId, TenantId, WirePartitionId};

verus! {

/// The number by which a record refers to a node.
pub fn uid_to_wire(id: Uid) -> (wire: u64)
    ensures
        wire == wire_id(id.0),
{
    (id.as_u128() % 0x1_0000_0000_0000_0000) as u64
}

/// The number by which a record refers to a partition.
pub fn partition_id_to_wire(id: PartitionId) -> (wire: u64)
    ensures
        wire == wire_id(id.0),
{
    (id.as_u128() % 0x1_0000_0000_0000_0000) as u64
}

pub fn t_to_wire(t: T) -> (v: i8)
    ensures
        v == ternary_byte(t),
{
    match t {
        T::Neg => -1,
        T::Zero => 0,
        T::Pos => 1,
    }
}

pub fn push_u8(buf: &mut Vec<u8>, v: u8)
    ensures
        final(buf)@ == old(buf)@ + seq![v],
{
    buf.push(v);
    assert(buf@ =~= old(buf)@ + seq![v]);
}

pub fn push_i8(buf: &mut Vec<u8>, v: i8)
    ensures
        final(buf)@ == old(buf)@ + seq![signed_byte(v)],
{
    push_u8(buf, signed_to_byte(v));
}

pub fn push_u16(buf: &mut Vec<u8>, v: u16)
    ensures
        final(buf)@ == old(buf)@ + u16_bytes(v as int),
{
    push_le(buf, v as u64, 2);
}

pub fn push_u32(buf: &mut Vec<u8>, v: u32)
    ensures
        final(buf)@ == old(buf)@ + u32_bytes(v as int),
{
    push_le(buf, v as u64, 4);
}

pub fn push_u64(buf: &mut Vec<u8>, v: u64)
    ensures
        final(buf)@ == old(buf)@ + u64_bytes(v),
{
    push_le(buf, v, 8);
}

pub fn push_i64(buf: &mut Vec<u8>, v: i64)
    ensures
        final(buf)@ == old(buf)@ + u64_bytes(signed_word(v)),
{
    push_u64(buf, signed_to_word(v));
}

/// Appends `bytes`.
pub fn push_all(buf: &mut Vec<u8>, bytes: &[u8])
    ensures
        final(buf)@ == old(buf)@ + bytes@,
{
    let n: usize = bytes.len();
    let mut i: usize = 0;
    assert(buf@ =~= old(buf)@ + bytes@.take(0));
    while i < n
        invariant
            i <= n == bytes@.len(),
            buf@ == old(buf)@ + bytes@.take(i as int),
        decreases n - i,
    {
        buf.push(bytes[i]);
        i = i + 1;
        assert(buf@ =~= old(buf)@ + bytes@.take(i as int));
    }
    assert(bytes@.take(n as int) =~= bytes@);
}

/// The low 16 bits of a length.
fn low_u16(n: usize) -> (v: u16)
    ensures
        v == n % 0x1_0000,
{
    (n % 0x1_0000) as u16
}

/// The low 32 bits of a length.
fn low_u32(n: usize) -> (v: u32)
    ensures
        v == n as int % 0x1_0000_0000,
{
    (n as u64 % 0x1_0000_0000) as u32
}

/// Appends the length in bytes of `s`, and its bytes.
pub fn push_str_u16(buf: &mut Vec<u8>, s: &str)
    ensures
        final(buf)@ == old(buf)@ + text_bytes(s@),
{
    let bytes = s.as_bytes();
    push_u16(buf, low_u16(bytes.len()));
    push_all(buf, bytes);
    assert(buf@ =~= old(buf)@ + text_bytes(s@));
}

pub fn push_uid(buf: &mut Vec<u8>, id: Uid)
    ensures
        final(buf)@ == old(buf)@ + uid_bytes(id),
{
    push_u64(buf, uid_to_wire(id));
}

pub fn push_pid(buf: &mut Vec<u8>, id: PartitionId)
    ensures
        final(buf)@ == old(buf)@ + pid_bytes(id),
{
    push_u64(buf, partition_id_to_wire(id));
}

fn push_uids(buf: &mut Vec<u8>, ids: &Vec<Uid>)
    ensures
        final(buf)@ == old(buf)@ + uids_bytes(ids@),
{
    let n: usize = ids.len();
    let mut i: usize = 0;
    assert(ids@.skip(0) =~= ids@);
    while i < n
        invariant
            i <= n == ids@.len(),
            buf@ + uids_bytes(ids@.skip(i as int)) == old(buf)@ + uids_bytes(ids@),
        decreases n - i,
    {
        let ghost before = buf@;
        let ghost left = ids@.skip(i as int);
        push_uid(buf, ids[i]);
        proof {
            assert(left.drop_first() =~= ids@.skip(i + 1));
            assert(buf@ + uids_bytes(left.drop_first()) =~= before + uids_bytes(left));
        }
        i = i + 1;
    }
    assert(buf@ + uids_bytes(ids@.skip(n as int)) =~= buf@);
}

fn push_val(buf: &mut Vec<u8>, val: &Val)
    ensures
        final(buf)@ == old(buf)@ + val_bytes(val@),
{
    match val {
        Val::Bool(b) => {
            push_u8(buf, 0x01);
            push_u8(buf, if *b { 1 } else { 0 });
        },
        Val::Int(i) => {
            push_u8(buf, 0x02);
            push_i64(buf, *i);
        },
        Val::Float(bits) => {
            push_u8(buf, 0x03);
            push_u64(buf, canonical_float(*bits));
        },
        Val::Text(s) => {
            push_u8(buf, 0x04);
            push_str_u16(buf, s.as_str());
        },
        Val::Ternary(t) => {
            push_u8(buf, 0x06);
            push_i8(buf, t_to_wire(*t));
        },
    }
    assert(buf@ =~= old(buf)@ + val_bytes(val@));
}

/// Appends the attributes: their count, and each key with its value in key order.
pub fn write_attr_map(attrs: &Attrs, buf: &mut Vec<u8>)
    ensures
        final(buf)@ == old(buf)@ + attrs_bytes(attrs@),
{
    let n: usize = attrs.len();
    push_u16(buf, low_u16(n));
    let mut i: usize = 0;
    assert(attrs@.skip(0) =~= attrs@);
    assert(buf@ + entries_bytes(attrs@) =~= old(buf)@ + attrs_bytes(attrs@));
    while i < n
        invariant
            i <= n == attrs@.len(),
            buf@ + entries_bytes(attrs@.skip(i as int)) == old(buf)@ + attrs_bytes(attrs@),
        decreases n - i,
    {
        let ghost before = buf@;
        let ghost left = attrs@.skip(i as int);
        let (key, val) = attrs.entry(i);
        push_str_u16(buf, key);
        push_val(buf, val);
        proof {
            assert(left.drop_first() =~= attrs@.skip(i + 1));
            assert(buf@ + entries_bytes(left.drop_first()) =~= before + entries_bytes(left));
        }
        i = i + 1;
    }
    assert(buf@ + entries_bytes(attrs@.skip(n as int)) =~= buf@);
}

/// The opcode under which `op` travels.
pub fn opcode_for(op: &IsaOp) -> (opcode: u16)
    ensures
        opcode == opcode_of(op@),
{
    match op {
        IsaOp::NodeCreate { .. } => 0x0001,
        IsaOp::EdgeConnect { .. } => 0x0002,
        IsaOp::SetValue { .. } => 0x0003,
        IsaOp::Propagate { .. } => 0x0004,
        IsaOp::Subscribe { .. } => 0x0005,
        IsaOp::DelNode { .. } => 0x0006,
        IsaOp::DelEdge { .. } => 0x0007,
        IsaOp::Demand { .. } => 0x0008,
        IsaOp::SetMode { .. } => 0x0009,
        IsaOp::Reflect { .. } => 0x000A,
        IsaOp::Stabilize { .. } => 0x000B,
        IsaOp::PartitionCreate { .. } => 0x000C,
        IsaOp::PartitionBind { .. } => 0x000D,
        IsaOp::SetPartitionAuthority { .. } => 0x000E,
        IsaOp::SetEdgeLabel { .. } => 0x000F,
        IsaOp::SetStabilizationConfig { .. } => 0x0010,
        IsaOp::SetExecutionPolicy { .. } => 0x0011,
        IsaOp::RegionDeclare { .. } => 0x0012,
    }
}

fn node_kind_to_wire(v: NodeKind) -> (b: u8)
    ensures
        b == node_kind_byte(v),
{
    match v {
        NodeKind::Input => 0x00,
        NodeKind::Computed(ComputeRule::Identity) => 0x01,
        NodeKind::Computed(ComputeRule::MvNeg) => 0x02,
        NodeKind::Computed(ComputeRule::MvAdd) => 0x03,
        NodeKind::Computed(ComputeRule::MvMul) => 0x04,
        NodeKind::Computed(ComputeRule::MvSub) => 0x05,
        NodeKind::Computed(ComputeRule::Merge) => 0x06,
        NodeKind::Computed(ComputeRule::MeetAll) => 0x07,
        NodeKind::Computed(ComputeRule::JoinAny) => 0x08,
        NodeKind::Computed(ComputeRule::BochvarFold) => 0x09,
        NodeKind::Computed(ComputeRule::PowerProduct) => 0x0A,
    }
}

fn port_kind_to_wire(v: PortKind) -> (b: u8)
    ensures
        b == port_kind_byte(v),
{
    match v {
        PortKind::Signal => 0x00,
        PortKind::Effort => 0x01,
        PortKind::Flow => 0x02,
        PortKind::Bond => 0x03,
    }
}

fn exec_mode_to_wire(v: ExecMode) -> (b: u8)
    ensures
        b == exec_mode_byte(v),
{
    match v {
        ExecMode::Eager => 0x00,
        ExecMode::Lazy => 0x01,
        ExecMode::Stabilizing => 0x02,
    }
}

fn strategy_to_wire(v: RewriteStrategy) -> (b: u8)
    ensures
        b == strategy_byte(v),
{
    match v {
        RewriteStrategy::FullL3 => 0x00,
        RewriteStrategy::Restricted(bits) => (bits % 256) as u8,
    }
}

fn stabilization_domain_to_wire(v: StabilizationDomain) -> (b: u8)
    ensures
        b == stabilization_domain_byte(v),
{
    match v {
        StabilizationDomain::LocalOnly => 0x00,
        StabilizationDomain::Federated => 0x01,
        StabilizationDomain::Inherit => 0x02,
    }
}

fn convergence_to_wire(v: ConvergencePolicy) -> (b: u8)
    ensures
        b == convergence_byte(v),
{
    match v {
        ConvergencePolicy::Canonical => 0x00,
        ConvergencePolicy::Witness => 0x01,
        ConvergencePolicy::BudgetExhausted => 0x02,
    }
}

fn priority_to_wire(v: QueuePriority) -> (b: u8)
    ensures
        b == priority_byte(v),
{
    match v {
        QueuePriority::Normal => 0x00,
        QueuePriority::High => 0x01,
        QueuePriority::Low => 0x02,
    }
}

fn retry_to_wire(v: RetryPolicy) -> (b: u8)
    ensures
        b == retry_byte(v),
{
    match v {
        RetryPolicy::Fail => 0x00,
        RetryPolicy::Retry { .. } => 0x01,
    }
}

fn stability_to_wire(v: StabilityContract) -> (b: u8)
    ensures
        b == stability_byte(v),
{
    match v {
        StabilityContract::Pinned => 0x00,
        StabilityContract::EpochTracked => 0x01,
    }
}

fn compile_to_wire(v: CompilePolicy) -> (b: u8)
    ensures
        b == compile_byte(v),
{
    match v {
        CompilePolicy::Eager => 0x00,
        CompilePolicy::Lazy => 0x01,
        CompilePolicy::Never => 0x02,
    }
}

fn zero_kind_to_wire(v: ZeroKind) -> (b: u8)
    ensures
        b == zero_kind_byte(v),
{
    match v {
        ZeroKind::Conflict => 0x00,
        ZeroKind::Incomplete => 0x01,
        ZeroKind::Ambiguous => 0x02,
        ZeroKind::Retracted => 0x03,
        ZeroKind::BoundaryViolation => 0x04,
        ZeroKind::VersionSkew => 0x05,
    }
}

fn push_payload_kind(buf: &mut Vec<u8>, kind: PayloadKind)
    ensures
        final(buf)@ == old(buf)@ + payload_kind_bytes(kind),
{
    match kind {
        PayloadKind::Definite => {
            push_u8(buf, 0x00);
        },
        PayloadKind::TypedZero(zero) => {
            push_u8(buf, 0x01);
            push_u8(buf, zero_kind_to_wire(zero));
        },
    }
    assert(buf@ =~= old(buf)@ + payload_kind_bytes(kind));
}

/// Appends the clocks of a frontier: their number, and each behind its partition.
fn write_frontier(frontier: &VectorClock, buf: &mut Vec<u8>)
    ensures
        final(buf)@ == old(buf)@ + frontier_bytes(frontier@),
{
    let keys = frontier.partitions();
    let n: usize = keys.len();
    push_u16(buf, low_u16(n));
    let mut i: usize = 0;
    assert(keys@.skip(0) =~= keys@);
    assert(buf@ + clocks_bytes(frontier@, keys@) =~= old(buf)@ + frontier_bytes(frontier@));
    while i < n
        invariant
            i <= n == keys@.len(),
            keys@.to_set() == frontier@.dom(),
            buf@ + clocks_bytes(frontier@, keys@.skip(i as int)) == old(buf)@ + frontier_bytes(
                frontier@,
            ),
        decreases n - i,
    {
        let ghost before = buf@;
        let ghost left = keys@.skip(i as int);
        let key = keys[i];
        assert(keys@.to_set().contains(key));
        push_pid(buf, key);
        push_u64(buf, frontier.get(key));
        proof {
            assert(left.drop_first() =~= keys@.skip(i + 1));
            assert(buf@ + clocks_bytes(frontier@, left.drop_first()) =~= before + clocks_bytes(
                frontier@,
                left,
            ));
        }
        i = i + 1;
    }
    assert(buf@ + clocks_bytes(frontier@, keys@.skip(n as int)) =~= buf@);
}

fn write_remote(remote: &RemoteDep, buf: &mut Vec<u8>)
    ensures
        final(buf)@ == old(buf)@ + remote_bytes(remote@),
{
    push_pid(buf, remote.source_partition);
    push_uid(buf, remote.source_uid);
    push_u64(buf, remote.source_version);
    push_payload_kind(buf, remote.payload_kind);
    write_frontier(&remote.causal_frontier, buf);
    push_pid(buf, remote.source_authority);
    push_u64(buf, remote.emitted_class.0);
    push_u8(buf, (remote.capability.0 % 256) as u8);
    push_u64(buf, remote.causal_scope.scope_bits);
    assert(buf@ =~= old(buf)@ + remote_bytes(remote@));
}

fn write_dep(dep: &DepKind, buf: &mut Vec<u8>)
    ensures
        final(buf)@ == old(buf)@ + dep_bytes(dep@),
{
    proof {
        reveal_strlit("");
        assert(""@ =~= Seq::<char>::empty());
    }
    match dep {
        DepKind::Local(None) => {
            push_u8(buf, 0x00);
            push_u8(buf, 0x00);
            push_str_u16(buf, "");
        },
        DepKind::Local(Some(port)) => {
            push_u8(buf, 0x00);
            push_u8(buf, port_kind_to_wire(port.kind));
            push_str_u16(buf, port.name.as_str());
        },
        DepKind::Remote(remote) => {
            push_u8(buf, 0x01);
            push_u8(buf, port_kind_to_wire(remote.port_kind));
            push_str_u16(buf, "");
            write_remote(remote, buf);
        },
    }
    assert(buf@ =~= old(buf)@ + dep_bytes(dep@));
}

fn write_boundary(boundary: &RegionBoundary, buf: &mut Vec<u8>)
    ensures
        final(buf)@ == old(buf)@ + boundary_bytes(boundary@),
{
    match boundary {
        RegionBoundary::DepClosure { max_depth } => {
            push_u8(buf, 0x00);
            push_u32(buf, low_u32(*max_depth));
        },
        RegionBoundary::ExplicitSet(ids) => {
            push_u8(buf, 0x01);
            push_u32(buf, low_u32(ids.len()));
            push_uids(buf, ids);
        },
        RegionBoundary::PartitionScoped(pid) => {
            push_u8(buf, 0x02);
            push_pid(buf, *pid);
        },
    }
    assert(buf@ =~= old(buf)@ + boundary_bytes(boundary@));
}

/// Appends the payload of `op`, without a header.
#[verifier::spinoff_prover]
#[verifier::rlimit(40)]
pub fn write_payload(op: &IsaOp, buf: &mut Vec<u8>)
    ensures
        final(buf)@ == old(buf)@ + payload_of(op@),
{
    match op {
        IsaOp::NodeCreate { id, typ, rule, attrs } => {
            push_uid(buf, *id);
            push_str_u16(buf, typ.as_str());
            push_u8(buf, node_kind_to_wire(*rule));
            write_attr_map(attrs, buf);
            assert(buf@ =~= old(buf)@ + payload_of(op@));
        },
        IsaOp::EdgeConnect { id, src, tgt, dep, .. } => {
            push_uid(buf, *id);
            push_uid(buf, *src);
            push_uid(buf, *tgt);
            write_dep(dep, buf);
            assert(buf@ =~= old(buf)@ + payload_of(op@));
        },
        IsaOp::SetValue { node, val } => {
            push_uid(buf, *node);
            push_i8(buf, t_to_wire(*val));
            assert(buf@ =~= old(buf)@ + payload_of(op@));
        },
        IsaOp::Propagate { node } => {
            push_uid(buf, *node);
            assert(buf@ =~= old(buf)@ + payload_of(op@));
        },
        IsaOp::Subscribe { source, subscriber } => {
            push_uid(buf, *source);
            push_uid(buf, *subscriber);
            assert(buf@ =~= old(buf)@ + payload_of(op@));
        },
        IsaOp::DelNode { id } => {
            push_uid(buf, *id);
            assert(buf@ =~= old(buf)@ + payload_of(op@));
        },
        IsaOp::DelEdge { id } => {
            push_uid(buf, *id);
            assert(buf@ =~= old(buf)@ + payload_of(op@));
        },
        IsaOp::Demand { node } => {
            push_uid(buf, *node);
            assert(buf@ =~= old(buf)@ + payload_of(op@));
        },
        IsaOp::SetMode { node, mode } => {
            push_uid(buf, *node);
            push_u8(buf, exec_mode_to_wire(*mode));
            assert(buf@ =~= old(buf)@ + payload_of(op@));
        },
        IsaOp::Reflect { node } => {
            push_uid(buf, *node);
            assert(buf@ =~= old(buf)@ + payload_of(op@));
        },
        IsaOp::Stabilize { region } => {
            match region {
                None => {
                    push_u32(buf, 0);
                },
                Some(ids) => {
                    push_u32(buf, low_u32(ids.len()));
                    push_uids(buf, ids);
                },
            }
            assert(buf@ =~= old(buf)@ + payload_of(op@));
        },
        IsaOp::PartitionCreate { id, authority_root, lattice_class, causal_domain } => {
            push_pid(buf, *id);
            push_pid(buf, *authority_root);
            push_u64(buf, lattice_class.0);
            push_u64(buf, causal_domain.scope_bits);
            assert(buf@ =~= old(buf)@ + payload_of(op@));
        },
        IsaOp::PartitionBind { node, partition } => {
            push_uid(buf, *node);
            push_pid(buf, *partition);
            assert(buf@ =~= old(buf)@ + payload_of(op@));
        },
        IsaOp::SetPartitionAuthority { partition, lattice_class, causal_domain } => {
            push_pid(buf, *partition);
            push_u64(buf, lattice_class.0);
            push_u64(buf, causal_domain.scope_bits);
            assert(buf@ =~= old(buf)@ + payload_of(op@));
        },
        IsaOp::SetEdgeLabel { source, target, label } => {
            push_uid(buf, *source);
            push_uid(buf, *target);
            push_u64(buf, label.lattice_class.0);
            push_u8(buf, (label.capability.0 % 256) as u8);
            push_u64(buf, label.causal_scope.scope_bits);
            assert(buf@ =~= old(buf)@ + payload_of(op@));
        },
        IsaOp::SetStabilizationConfig { node, config } => {
            push_uid(buf, *node);
            push_u8(buf, strategy_to_wire(config.strategy));
            push_u8(buf, stabilization_domain_to_wire(config.domain));
            push_u32(buf, low_u32(config.budget.max_iterations));
            push_u8(buf, convergence_to_wire(config.convergence_policy));
            assert(buf@ =~= old(buf)@ + payload_of(op@));
        },
        IsaOp::SetExecutionPolicy { node, policy } => {
            push_uid(buf, *node);
            push_u8(buf, priority_to_wire(policy.queue_priority));
            push_u8(buf, retry_to_wire(policy.retry_policy));
            assert(buf@ =~= old(buf)@ + payload_of(op@));
        },
        IsaOp::RegionDeclare { root, boundary, stability, compile } => {
            push_uid(buf, *root);
            write_boundary(boundary, buf);
            push_u8(buf, stability_to_wire(*stability));
            push_u8(buf, compile_to_wire(*compile));
            assert(buf@ =~= old(buf)@ + payload_of(op@));
        },
    }
}

/// What the header of a record says apart from its opcode and its length.
#[derive(Clone, Copy, Debug, PartialEq, Eq, Structural)]
pub struct RecordContext {
    pub tenant_id: TenantId,
    pub session_id: SessionId,
    pub partition_id: WirePartitionId,
    pub causal_epoch: u64,
    /// Ascends strictly within a session.
    pub stream_seq: u64,
    /// Bits without a meaning are zero.
    pub flags: u16,
}

impl RecordContext {
    /// The context of a session without a tenant, for the default partition.
    pub fn simple(session_id: SessionId, stream_seq: u64) -> (ctx: Self)
        ensures
            ctx == (RecordContext {
                tenant_id: TenantId(0),
                session_id,
                partition_id: WirePartitionId(0),
                causal_epoch: 0,
                stream_seq,
                flags: 0,
            }),
    {
        RecordContext {
            tenant_id: TenantId(0),
            session_id,
            partition_id: WirePartitionId(0),
            causal_epoch: 0,
            stream_seq,
            flags: 0,
        }
    }
}

/// The 48 bytes of a record header.
pub open spec fn header_bytes(opcode: u16, length: int, ctx: RecordContext) -> Seq<u8> {
    u16_bytes(opcode as int) + u16_bytes(ctx.flags as int) + u32_bytes(length) + u64_bytes(
        ctx.tenant_id.0,
    ) + u64_bytes(ctx.session_id.0) + u64_bytes(ctx.partition_id.0) + u64_bytes(ctx.causal_epoch)
        + u64_bytes(ctx.stream_seq)
}

/// A whole record: the header, whose length counts header and payload, and the payload.
pub open spec fn record_of(op: IsaOpView, ctx: RecordContext) -> Seq<u8> {
    header_bytes(opcode_of(op), (48 + payload_of(op).len()) as int, ctx) + payload_of(op)
}

/// The 32 bytes of a stream preamble.
pub open spec fn preamble_bytes(
    path_id: PathId,
    session_id: SessionId,
    feature_flags: u64,
    flags: u16,
) -> Seq<u8> {
    magic() + u16_bytes(SUPPORTED_VERSION as int) + u16_bytes(flags as int) + u64_bytes(feature_flags)
        + u64_bytes(path_id.0) + u64_bytes(session_id.0)
}

fn push_header(buf: &mut Vec<u8>, opcode: u16, length: u32, ctx: &RecordContext)
    ensures
        final(buf)@ == old(buf)@ + header_bytes(opcode, length as int, *ctx),
{
    push_u16(buf, opcode);
    push_u16(buf, ctx.flags);
    push_u32(buf, length);
    push_u64(buf, ctx.tenant_id.0);
    push_u64(buf, ctx.session_id.0);
    push_u64(buf, ctx.partition_id.0);
    push_u64(buf, ctx.causal_epoch);
    push_u64(buf, ctx.stream_seq);
    assert(buf@ =~= old(buf)@ + header_bytes(opcode, length as int, *ctx));
}

/// A payload behind its header.
fn framed(payload: &Vec<u8>, opcode: u16, ctx: &RecordContext) -> (record: Vec<u8>)
    ensures
        record@ == header_bytes(opcode, (48 + payload@.len()) as int, *ctx) + payload@,
{
    let length: u32 = ((low_u32(payload.len()) as u64 + 48) % 0x1_0000_0000) as u32;
    let mut out: Vec<u8> = Vec::new();
    push_header(&mut out, opcode, length, ctx);
    proof {
        let total = 48 + payload@.len();
        assert(length as int % 0x1_0000_0000 == total % 0x1_0000_0000);
        lemma_nothing_before(header_bytes(opcode, length as int, *ctx));
    }
    push_all(&mut out, payload.as_slice());
    out
}

proof fn lemma_nothing_before(s: Seq<u8>)
    ensures
        Seq::<u8>::empty() + s == s,
{
    assert(Seq::<u8>::empty() + s =~= s);
}

/// Encodes `op` as a whole record.
#[verifier::spinoff_prover]
#[verifier::rlimit(30)]
pub fn encode_record(op: &IsaOp, ctx: &RecordContext) -> (record: Vec<u8>)
    ensures
        record@ == record_of(op@, *ctx),
{
    let mut payload: Vec<u8> = Vec::new();
    write_payload(op, &mut payload);
    proof {
        lemma_nothing_before(payload_of(op@));
    }
    framed(&payload, opcode_for(op), ctx)
}

/// Encodes the preamble of a stream.
pub fn encode_stream_preamble(
    path_id: PathId,
    session_id: SessionId,
    feature_flags: u64,
    flags: u16,
) -> (preamble: [u8; 32])
    ensures
        preamble@ == preamble_bytes(path_id, session_id, feature_flags, flags),
{
    let mut buf: [u8; 32] = [0; 32];
    buf[0] = 0x50;
    buf[1] = 0x47;
    buf[2] = 0x52;
    buf[3] = 0x53;
    assert(buf@.take(4) =~= magic());
    put_le(&mut buf, 4, SUPPORTED_VERSION as u64, 2);
    put_le(&mut buf, 6, flags as u64, 2);
    put_le(&mut buf, 8, feature_flags, 8);
    put_le(&mut buf, 16, path_id.0, 8);
    put_le(&mut buf, 24, session_id.0, 8);
    proof {
        broadcast use lemma_le_bytes_len;

        assert(buf@ =~= preamble_bytes(path_id, session_id, feature_flags, flags));
    }
    buf
}

} // verus!

//! What a reader gets back of what a writer wrote.

use vstd::prelude::*;
use vstd::utf8::{
    decode_utf8, decode_utf8_encode_utf8, encode_utf8, encode_utf8_decode_utf8,
    encode_utf8_valid_utf8, valid_utf8,
};

use crate::attr::{
    ValView, canonical_float, is_nan_bits, keys_ascending, lemma_with_attr_appends,
    lemma_with_attr_every, lemma_with_attr_keys, with_attr,
};
use crate::bytes::{
    byte_range, le_bytes, le_value, lemma_byte_ranges, lemma_le_bytes_len,
    lemma_le_value_of_bytes, signed_byte, signed_word, text_before,
};
use crate::decode::{
    DecoderView, IngressError, RecordAction, SUPPORTED_VERSION, StreamPreamble, decoding,
    epoch_regresses, header_in, magic, preamble_in, seq_stalls,
};
use crate::dispatch::DispatchError;
use crate::encode::{RecordContext, header_bytes, preamble_bytes, record_of};
use crate::grammar::{
    attrs_bytes, boundary_bytes, clocks_bytes, compile_byte, convergence_byte, dep_bytes,
    edge_type, entries_bytes, exec_mode_byte, frontier_bytes, node_kind_byte, op_in, opcode_of,
    payload_kind_bytes, payload_of, pid_bytes, port_kind_byte, port_kind_of, priority_byte,
    remote_bytes, retry_byte, stability_byte, stabilization_domain_byte, strategy_byte,
    take_attrs, take_blob, take_boundary, take_dep, take_edge_connect, take_entries,
    take_frontier, take_node_create, take_op, take_partition_bind, take_partition_create,
    take_payload_kind, take_pid, take_provenance, take_region_declare, take_remote_dep,
    take_set_edge_label, take_set_execution_policy, take_set_mode, take_set_partition_authority,
    take_set_stabilization_config, take_set_value, take_stabilize, take_subscribe, take_ternary,
    take_text, take_u16, take_u32, take_u64, take_u8, take_uid, take_uids, take_val,
    ternary_byte, text_bytes, u16_bytes, u32_bytes, u64_bytes, uid_bytes, uids_bytes, val_bytes,
    wire_id,
};
use crate::idmap::{lemma_sorted_keys_exist, sorted_keys};
use crate::isa::{
    CapabilityBits, CausalScope, DepKindView, EdgeLabel, ExecutionPolicy, IsaOpView, PartitionId,
    PayloadKind, PortKind, RegionBoundaryView, RemoteDepView, RetryPolicy, RewriteBudget,
    RewriteStrategy, StabilizationConfig, T, Uid,
};
use crate::{PathId, SessionId};
use crate::opcode::law_instructions_have_a_class;
use crate::runtime::ParsedHeader;

verus! {

/// The text's length in bytes can be written down.
pub open spec fn text_fits(text: Seq<char>) -> bool {
    encode_utf8(text).len() < 0x1_0000
}

pub open spec fn val_fits(val: ValView) -> bool {
    val matches ValView::Text(t) ==> text_fits(t)
}

/// The frontier's size and its partitions' identities can be written down.
pub open spec fn frontier_fits(frontier: Map<PartitionId, u64>) -> bool {
    &&& frontier.dom().finite()
    &&& frontier.dom().len() < 0x1_0000
    &&& forall|k: PartitionId| #[trigger]
        frontier.contains_key(k) ==> k.0 < 0x1_0000_0000_0000_0000
}

/// The lengths and counts in the instruction can be written down, and so can the identities of
/// the partitions in a causal frontier, which would fall together if they were cut.
pub open spec fn op_fits(op: IsaOpView) -> bool {
    match op {
        IsaOpView::NodeCreate { typ, attrs, .. } => {
            &&& text_fits(typ)
            &&& attrs.len() < 0x1_0000
            &&& forall|i: int|
                0 <= i < attrs.len() ==> text_fits(#[trigger] attrs[i].0) && val_fits(attrs[i].1)
        },
        IsaOpView::EdgeConnect { dep: DepKindView::Local(Some((name, _))), .. } => text_fits(name),
        IsaOpView::EdgeConnect { dep: DepKindView::Remote(remote), .. } => frontier_fits(
            remote.causal_frontier,
        ),
        IsaOpView::Stabilize { region: Some(ids) } => ids.len() < 0x1_0000_0000,
        IsaOpView::RegionDeclare { boundary: RegionBoundaryView::ExplicitSet(ids), .. } =>
            ids.len() < 0x1_0000_0000,
        _ => true,
    }
}

/// The attributes of a node are in key order.
pub open spec fn op_ordered(op: IsaOpView) -> bool {
    op matches IsaOpView::NodeCreate { attrs, .. } ==> keys_ascending(attrs)
}

/// A node identity, cut to what travels.
pub open spec fn wire_uid(id: Uid) -> Uid {
    Uid(wire_id(id.0) as u128)
}

/// A partition identity, cut to what travels.
pub open spec fn wire_pid(id: PartitionId) -> PartitionId {
    PartitionId(wire_id(id.0) as u128)
}

pub open spec fn wire_uids(ids: Seq<Uid>) -> Seq<Uid> {
    ids.map_values(|id: Uid| wire_uid(id))
}

pub open spec fn wire_val(val: ValView) -> ValView {
    match val {
        ValView::Float(bits) => ValView::Float(canonical_float(bits)),
        _ => val,
    }
}

pub open spec fn wire_attrs(attrs: Seq<(Seq<char>, ValView)>) -> Seq<(Seq<char>, ValView)> {
    attrs.map_values(|e: (Seq<char>, ValView)| (e.0, wire_val(e.1)))
}

/// A remote dependency, cut to what travels of it.
pub open spec fn wire_remote(remote: RemoteDepView) -> RemoteDepView {
    RemoteDepView {
        source_partition: wire_pid(remote.source_partition),
        source_uid: wire_uid(remote.source_uid),
        source_authority: wire_pid(remote.source_authority),
        capability: CapabilityBits(remote.capability.0 % 256),
        causal_scope: CausalScope {
            scope_bits: remote.causal_scope.scope_bits,
            root: PartitionId(0),
        },
        ..remote
    }
}

/// A dependency, cut to what travels of it. A port without a name is no port.
pub open spec fn wire_dep(dep: DepKindView) -> DepKindView {
    match dep {
        DepKindView::Local(Some((name, kind))) => if name.len() == 0 {
            DepKindView::Local(None)
        } else {
            dep
        },
        DepKindView::Local(None) => dep,
        DepKindView::Remote(remote) => DepKindView::Remote(wire_remote(remote)),
    }
}

/// An instruction, cut to what travels of it: identities to 64 bits, floats to their canonical
/// form, capabilities and restricted strategies to a byte, limits to 32 bits; an edge's type
/// name, the root of a causal scope and the number of attempts are not carried.
pub open spec fn wire_form(op: IsaOpView) -> IsaOpView {
    match op {
        IsaOpView::NodeCreate { id, typ, rule, attrs } => IsaOpView::NodeCreate {
            id: wire_uid(id),
            typ,
            rule,
            attrs: wire_attrs(attrs),
        },
        IsaOpView::EdgeConnect { id, typ, src, tgt, dep } => IsaOpView::EdgeConnect {
            id: wire_uid(id),
            typ: edge_type(),
            src: wire_uid(src),
            tgt: wire_uid(tgt),
            dep: wire_dep(dep),
        },
        IsaOpView::SetValue { node, val } => IsaOpView::SetValue { node: wire_uid(node), val },
        IsaOpView::Propagate { node } => IsaOpView::Propagate { node: wire_uid(node) },
        IsaOpView::Subscribe { source, subscriber } => IsaOpView::Subscribe {
            source: wire_uid(source),
            subscriber: wire_uid(subscriber),
        },
        IsaOpView::DelNode { id } => IsaOpView::DelNode { id: wire_uid(id) },
        IsaOpView::DelEdge { id } => IsaOpView::DelEdge { id: wire_uid(id) },
        IsaOpView::Demand { node } => IsaOpView::Demand { node: wire_uid(node) },
        IsaOpView::SetMode { node, mode } => IsaOpView::SetMode { node: wire_uid(node), mode },
        IsaOpView::Reflect { node } => IsaOpView::Reflect { node: wire_uid(node) },
        IsaOpView::Stabilize { region: None } => op,
        IsaOpView::Stabilize { region: Some(ids) } => IsaOpView::Stabilize {
            region: if ids.len() == 0 {
                None
            } else {
                Some(wire_uids(ids))
            },
        },
        IsaOpView::PartitionCreate { id, authority_root, lattice_class, causal_domain } =>
            IsaOpView::PartitionCreate {
                id: wire_pid(id),
                authority_root: wire_pid(authority_root),
                lattice_class,
                causal_domain: CausalScope {
                    scope_bits: causal_domain.scope_bits,
                    root: wire_pid(id),
                },
            },
        IsaOpView::PartitionBind { node, partition } => IsaOpView::PartitionBind {
            node: wire_uid(node),
            partition: wire_pid(partition),
        },
        IsaOpView::SetPartitionAuthority { partition, lattice_class, causal_domain } =>
            IsaOpView::SetPartitionAuthority {
                partition: wire_pid(partition),
                lattice_class,
                causal_domain: CausalScope {
                    scope_bits: causal_domain.scope_bits,
                    root: PartitionId(0),
                },
            },
        IsaOpView::SetEdgeLabel { source, target, label } => IsaOpView::SetEdgeLabel {
            source: wire_uid(source),
            target: wire_uid(target),
            label: EdgeLabel {
                capability: CapabilityBits(label.capability.0 % 256),
                lattice_class: label.lattice_class,
                causal_scope: CausalScope {
                    scope_bits: label.causal_scope.scope_bits,
                    root: PartitionId(0),
                },
            },
        },
        IsaOpView::SetStabilizationConfig { node, config } => IsaOpView::SetStabilizationConfig {
            node: wire_uid(node),
            config: StabilizationConfig {
                strategy: match config.strategy {
                    RewriteStrategy::Restricted(v) => if v % 256 == 0 {
                        RewriteStrategy::FullL3
                    } else {
                        RewriteStrategy::Restricted(v % 256)
                    },
                    RewriteStrategy::FullL3 => RewriteStrategy::FullL3,
                },
                domain: config.domain,
                budget: RewriteBudget {
                    max_iterations: (config.budget.max_iterations as int % 0x1_0000_0000) as usize,
                },
                convergence_policy: config.convergence_policy,
            },
        },
        IsaOpView::SetExecutionPolicy { node, policy } => IsaOpView::SetExecutionPolicy {
            node: wire_uid(node),
            policy: ExecutionPolicy {
                queue_priority: policy.queue_priority,
                retry_policy: match policy.retry_policy {
                    RetryPolicy::Fail => RetryPolicy::Fail,
                    RetryPolicy::Retry { .. } => RetryPolicy::Retry { max_attempts: 3 },
                },
            },
        },
        IsaOpView::RegionDeclare { root, boundary, stability, compile } => IsaOpView::RegionDeclare {
            root: wire_uid(root),
            boundary: match boundary {
                RegionBoundaryView::DepClosure { max_depth } => RegionBoundaryView::DepClosure {
                    max_depth: (max_depth as int % 0x1_0000_0000) as usize,
                },
                RegionBoundaryView::ExplicitSet(ids) => RegionBoundaryView::ExplicitSet(
                    wire_uids(ids),
                ),
                RegionBoundaryView::PartitionScoped(pid) => RegionBoundaryView::PartitionScoped(
                    wire_pid(pid),
                ),
            },
            stability,
            compile,
        },
    }
}

// ── Fields ───────────────────────────────────────────────────────────────────

broadcast proof fn lemma_take_u8(one: Seq<u8>, rest: Seq<u8>)
    requires
        one.len() == 1,
    ensures
        #[trigger] take_u8(one + rest) == Ok::<(u8, Seq<u8>), DispatchError>((one[0], rest)),
{
    assert((one + rest).skip(1) =~= rest);
}

broadcast proof fn lemma_take_pair(two: Seq<u8>, rest: Seq<u8>)
    requires
        two.len() == 2,
    ensures
        #[trigger] take_u8(two + rest) == Ok::<(u8, Seq<u8>), DispatchError>(
            (two[0], seq![two[1]] + rest),
        ),
{
    assert((two + rest).skip(1) =~= seq![two[1]] + rest);
}

proof fn lemma_take_le(value: nat, width: nat, rest: Seq<u8>)
    requires
        value < byte_range(width),
    ensures
        ({
            let s = le_bytes(value, width) + rest;
            &&& s.len() >= width
            &&& le_value(s.take(width as int)) == value
            &&& s.skip(width as int) == rest
        }),
{
    let s = le_bytes(value, width) + rest;
    lemma_le_bytes_len(value, width);
    lemma_le_value_of_bytes(value, width);
    assert(s.take(width as int) =~= le_bytes(value, width));
    assert(s.skip(width as int) =~= rest);
}

broadcast proof fn lemma_take_u16(v: int, rest: Seq<u8>)
    ensures
        #[trigger] take_u16(u16_bytes(v) + rest) == Ok::<(u16, Seq<u8>), DispatchError>(
            ((v % 0x1_0000) as u16, rest),
        ),
{
    lemma_byte_ranges();
    lemma_take_le((v % 0x1_0000) as nat, 2, rest);
}

broadcast proof fn lemma_take_u32(v: int, rest: Seq<u8>)
    ensures
        #[trigger] take_u32(u32_bytes(v) + rest) == Ok::<(u32, Seq<u8>), DispatchError>(
            ((v % 0x1_0000_0000) as u32, rest),
        ),
{
    lemma_byte_ranges();
    lemma_take_le((v % 0x1_0000_0000) as nat, 4, rest);
}

broadcast proof fn lemma_take_u64(v: u64, rest: Seq<u8>)
    ensures
        #[trigger] take_u64(u64_bytes(v) + rest) == Ok::<(u64, Seq<u8>), DispatchError>((v, rest)),
{
    lemma_byte_ranges();
    lemma_take_le(v as nat, 8, rest);
}

broadcast proof fn lemma_take_uid(id: Uid, rest: Seq<u8>)
    ensures
        #[trigger] take_uid(uid_bytes(id) + rest) == Ok::<(Uid, Seq<u8>), DispatchError>(
            (wire_uid(id), rest),
        ),
{
    lemma_take_u64(wire_id(id.0), rest);
}

broadcast proof fn lemma_take_pid(id: PartitionId, rest: Seq<u8>)
    ensures
        #[trigger] take_pid(pid_bytes(id) + rest) == Ok::<(PartitionId, Seq<u8>), DispatchError>(
            (wire_pid(id), rest),
        ),
{
    lemma_take_u64(wire_id(id.0), rest);
}

proof fn lemma_split(head: Seq<u8>, rest: Seq<u8>)
    ensures
        (head + rest).len() == head.len() + rest.len(),
        (head + rest).take(head.len() as int) == head,
        (head + rest).skip(head.len() as int) == rest,
{
    assert((head + rest).take(head.len() as int) =~= head);
    assert((head + rest).skip(head.len() as int) =~= rest);
}

broadcast proof fn lemma_take_text(text: Seq<char>, rest: Seq<u8>)
    requires
        text_fits(text),
    ensures
        #[trigger] take_text(text_bytes(text) + rest) == Ok::<(Seq<char>, Seq<u8>), DispatchError>(
            (text, rest),
        ),
{
    let body = encode_utf8(text);
    let tail = body + rest;
    let s = text_bytes(text) + rest;
    assert(take_u16(s) == Ok::<(u16, Seq<u8>), DispatchError>((body.len() as u16, tail))) by {
        assert(s =~= u16_bytes(body.len() as int) + tail);
        lemma_take_u16(body.len() as int, tail);
    }
    assert(tail.take(body.len() as int) == body && tail.skip(body.len() as int) == rest
        && tail.len() >= body.len()) by {
        lemma_split(body, rest);
    }
    assert(valid_utf8(body) && decode_utf8(body) == text) by {
        encode_utf8_valid_utf8(text);
        encode_utf8_decode_utf8(text);
    }
}

proof fn lemma_take_ternary(t: T, rest: Seq<u8>)
    ensures
        take_ternary(seq![signed_byte(ternary_byte(t))] + rest) == Ok::<
            (T, Seq<u8>),
            DispatchError,
        >((t, rest)),
{
    lemma_take_u8(seq![signed_byte(ternary_byte(t))], rest);
}

proof fn lemma_take_val(val: ValView, rest: Seq<u8>)
    requires
        val_fits(val),
    ensures
        take_val(val_bytes(val) + rest) == Ok::<(ValView, Seq<u8>), DispatchError>(
            (wire_val(val), rest),
        ),
{
    broadcast use {lemma_take_u8, lemma_take_pair, lemma_take_u64, lemma_take_text};

    match val {
        ValView::Bool(_) => {},
        ValView::Int(i) => {
            let body = u64_bytes(signed_word(i));
            assert(val_bytes(val) + rest =~= seq![0x02u8] + (body + rest));
        },
        ValView::Float(bits) => {
            let body = u64_bytes(canonical_float(bits));
            assert(val_bytes(val) + rest =~= seq![0x03u8] + (body + rest));
            assert(0x7FF8_0000_0000_0000u64 & 0x7FFF_FFFF_FFFF_FFFFu64 > 0x7FF0_0000_0000_0000u64)
                by (bit_vector);
        },
        ValView::Text(t) => {
            assert(val_bytes(val) + rest =~= seq![0x04u8] + (text_bytes(t) + rest));
        },
        ValView::Ternary(t) => {
            lemma_take_ternary(t, rest);
        },
    }
}

#[verifier::spinoff_prover]
#[verifier::rlimit(30)]
proof fn lemma_take_entries(
    before: Seq<(Seq<char>, ValView)>,
    entries: Seq<(Seq<char>, ValView)>,
    rest: Seq<u8>,
)
    requires
        keys_ascending(before + entries),
        forall|i: int|
            0 <= i < entries.len() ==> text_fits(#[trigger] entries[i].0) && val_fits(entries[i].1),
    ensures
        take_entries(before, entries.len(), entries_bytes(entries) + rest) == Ok::<
            (Seq<(Seq<char>, ValView)>, Seq<u8>),
            DispatchError,
        >((before + wire_attrs(entries), rest)),
    decreases entries.len(),
{
    if entries.len() == 0 {
        assert(entries_bytes(entries) + rest =~= rest);
        assert(before + wire_attrs(entries) =~= before);
    } else {
        let (key, val) = entries[0];
        let tail = entries.drop_first();
        let after_val = entries_bytes(tail) + rest;
        let after_key = val_bytes(val) + after_val;
        let s = entries_bytes(entries) + rest;
        assert(text_fits(entries[0].0) && val_fits(entries[0].1));
        assert(take_text(s) == Ok::<(Seq<char>, Seq<u8>), DispatchError>((key, after_key))) by {
            assert(s =~= text_bytes(key) + after_key);
            lemma_take_text(key, after_key);
        }
        lemma_take_val(val, after_val);
        let next = before.push((key, wire_val(val)));
        assert(with_attr(before, key, wire_val(val)) == next) by {
            assert forall|i: int| 0 <= i < before.len() implies text_before(
                #[trigger] before[i].0,
                key,
            ) by {
                let all = before + entries;
                assert(text_before(all[i].0, all[before.len() as int].0));
            }
            lemma_with_attr_appends(before, key, wire_val(val));
        }
        assert(keys_ascending(next + tail)) by {
            let all = before + entries;
            assert forall|i: int, j: int| 0 <= i < j < (next + tail).len() implies text_before(
                #[trigger] (next + tail)[i].0,
                #[trigger] (next + tail)[j].0,
            ) by {
                assert((next + tail)[i].0 == all[i].0);
                assert((next + tail)[j].0 == all[j].0);
                assert(text_before(all[i].0, all[j].0));
            }
        }
        assert forall|i: int| 0 <= i < tail.len() implies text_fits(#[trigger] tail[i].0)
            && val_fits(tail[i].1) by {
            assert(text_fits(entries[i + 1].0));
        }
        lemma_take_entries(next, tail, rest);
        assert(next + wire_attrs(tail) =~= before + wire_attrs(entries));
    }
}

proof fn lemma_take_attrs(attrs: Seq<(Seq<char>, ValView)>, rest: Seq<u8>)
    requires
        keys_ascending(attrs),
        attrs.len() < 0x1_0000,
        forall|i: int|
            0 <= i < attrs.len() ==> text_fits(#[trigger] attrs[i].0) && val_fits(attrs[i].1),
    ensures
        take_attrs(attrs_bytes(attrs) + rest) == Ok::<
            (Seq<(Seq<char>, ValView)>, Seq<u8>),
            DispatchError,
        >((wire_attrs(attrs), rest)),
{
    let body = entries_bytes(attrs) + rest;
    let s = attrs_bytes(attrs) + rest;
    let none = Seq::<(Seq<char>, ValView)>::empty();
    assert(take_u16(s) == Ok::<(u16, Seq<u8>), DispatchError>((attrs.len() as u16, body))) by {
        assert(s =~= u16_bytes(attrs.len() as int) + body);
        lemma_take_u16(attrs.len() as int, body);
    }
    assert(take_entries(none, attrs.len(), body) == Ok::<
        (Seq<(Seq<char>, ValView)>, Seq<u8>),
        DispatchError,
    >((wire_attrs(attrs), rest))) by {
        assert(none + attrs =~= attrs);
        assert(none + wire_attrs(attrs) =~= wire_attrs(attrs));
        lemma_take_entries(none, attrs, rest);
    }
}

proof fn lemma_take_uids(before: Seq<Uid>, ids: Seq<Uid>, rest: Seq<u8>)
    ensures
        take_uids(before, ids.len(), uids_bytes(ids) + rest) == Ok::<
            (Seq<Uid>, Seq<u8>),
            DispatchError,
        >((before + wire_uids(ids), rest)),
    decreases ids.len(),
{
    if ids.len() == 0 {
        assert(uids_bytes(ids) + rest =~= rest);
        assert(before + wire_uids(ids) =~= before);
    } else {
        let tail = ids.drop_first();
        assert(uids_bytes(ids) + rest =~= uid_bytes(ids[0]) + (uids_bytes(tail) + rest));
        lemma_take_uid(ids[0], uids_bytes(tail) + rest);
        let next = before.push(wire_uid(ids[0]));
        lemma_take_uids(next, tail, rest);
        assert(next + wire_uids(tail) =~= before + wire_uids(ids));
    }
}

proof fn lemma_take_boundary(boundary: RegionBoundaryView, rest: Seq<u8>)
    requires
        boundary matches RegionBoundaryView::ExplicitSet(ids) ==> ids.len() < 0x1_0000_0000,
    ensures
        take_boundary(boundary_bytes(boundary) + rest) == Ok::<
            (RegionBoundaryView, Seq<u8>),
            DispatchError,
        >(
            (
                match boundary {
                    RegionBoundaryView::DepClosure { max_depth } => RegionBoundaryView::DepClosure {
                        max_depth: (max_depth as int % 0x1_0000_0000) as usize,
                    },
                    RegionBoundaryView::ExplicitSet(ids) => RegionBoundaryView::ExplicitSet(
                        wire_uids(ids),
                    ),
                    RegionBoundaryView::PartitionScoped(
                        pid,
                    ) => RegionBoundaryView::PartitionScoped(wire_pid(pid)),
                },
                rest,
            ),
        ),
{
    broadcast use {lemma_take_u8, lemma_take_u32, lemma_take_pid};

    match boundary {
        RegionBoundaryView::DepClosure { max_depth } => {
            assert(boundary_bytes(boundary) + rest =~= seq![0x00u8] + (u32_bytes(max_depth as int)
                + rest));
        },
        RegionBoundaryView::ExplicitSet(ids) => {
            assert(boundary_bytes(boundary) + rest =~= seq![0x01u8] + (u32_bytes(ids.len() as int)
                + (uids_bytes(ids) + rest)));
            lemma_take_uids(Seq::empty(), ids, rest);
            assert(Seq::<Uid>::empty() + wire_uids(ids) =~= wire_uids(ids));
        },
        RegionBoundaryView::PartitionScoped(pid) => {
            assert(boundary_bytes(boundary) + rest =~= seq![0x02u8] + (pid_bytes(pid) + rest));
        },
    }
}

proof fn lemma_take_payload_kind(kind: PayloadKind, rest: Seq<u8>)
    ensures
        take_payload_kind(payload_kind_bytes(kind) + rest) == Ok::<
            (PayloadKind, Seq<u8>),
            DispatchError,
        >((kind, rest)),
{
    broadcast use {lemma_take_u8, lemma_take_pair};

}

/// The clocks of `keys` in `frontier`, set one after the other in `before`.
pub open spec fn with_clocks(
    before: Map<PartitionId, u64>,
    frontier: Map<PartitionId, u64>,
    keys: Seq<PartitionId>,
) -> Map<PartitionId, u64>
    decreases keys.len(),
{
    if keys.len() == 0 {
        before
    } else {
        with_clocks(before.insert(keys[0], frontier[keys[0]]), frontier, keys.drop_first())
    }
}

proof fn lemma_with_clocks(
    before: Map<PartitionId, u64>,
    frontier: Map<PartitionId, u64>,
    keys: Seq<PartitionId>,
    k: PartitionId,
)
    ensures
        with_clocks(before, frontier, keys).contains_key(k) <==> before.contains_key(k)
            || keys.contains(k),
        keys.contains(k) ==> with_clocks(before, frontier, keys)[k] == frontier[k],
        !keys.contains(k) ==> with_clocks(before, frontier, keys)[k] == before[k],
    decreases keys.len(),
{
    if keys.len() > 0 {
        let tail = keys.drop_first();
        lemma_with_clocks(before.insert(keys[0], frontier[keys[0]]), frontier, tail, k);
        if keys.contains(k) && k != keys[0] {
            let i = choose|i: int| 0 <= i < keys.len() && keys[i] == k;
            assert(tail[i - 1] == k);
        }
        if tail.contains(k) {
            let i = choose|i: int| 0 <= i < tail.len() && tail[i] == k;
            assert(keys[i + 1] == k);
        }
        assert(keys.contains(keys[0]));
    }
}

proof fn lemma_take_clocks(
    before: Map<PartitionId, u64>,
    frontier: Map<PartitionId, u64>,
    keys: Seq<PartitionId>,
    rest: Seq<u8>,
)
    requires
        forall|i: int| 0 <= i < keys.len() ==> (#[trigger] keys[i]).0 < 0x1_0000_0000_0000_0000,
    ensures
        take_frontier(before, keys.len(), clocks_bytes(frontier, keys) + rest) == Ok::<
            (Map<PartitionId, u64>, Seq<u8>),
            DispatchError,
        >((with_clocks(before, frontier, keys), rest)),
    decreases keys.len(),
{
    if keys.len() == 0 {
        assert(clocks_bytes(frontier, keys) + rest =~= rest);
    } else {
        let tail = keys.drop_first();
        let after = clocks_bytes(frontier, tail) + rest;
        assert(clocks_bytes(frontier, keys) + rest =~= pid_bytes(keys[0]) + (u64_bytes(
            frontier[keys[0]],
        ) + after));
        lemma_take_pid(keys[0], u64_bytes(frontier[keys[0]]) + after);
        lemma_take_u64(frontier[keys[0]], after);
        assert(keys[0].0 < 0x1_0000_0000_0000_0000);
        assert(wire_pid(keys[0]) == keys[0]);
        assert forall|i: int| 0 <= i < tail.len() implies (#[trigger] tail[i]).0
            < 0x1_0000_0000_0000_0000 by {
            assert(keys[i + 1].0 < 0x1_0000_0000_0000_0000);
        }
        lemma_take_clocks(before.insert(keys[0], frontier[keys[0]]), frontier, tail, rest);
    }
}

proof fn lemma_take_frontier(frontier: Map<PartitionId, u64>, rest: Seq<u8>)
    requires
        frontier_fits(frontier),
    ensures
        ({
            let after = clocks_bytes(frontier, sorted_keys(frontier.dom())) + rest;
            &&& take_u16(frontier_bytes(frontier) + rest) == Ok::<(u16, Seq<u8>), DispatchError>(
                (frontier.dom().len() as u16, after),
            )
            &&& take_frontier(Map::empty(), frontier.dom().len(), after) == Ok::<
                (Map<PartitionId, u64>, Seq<u8>),
                DispatchError,
            >((frontier, rest))
        }),
{
    let keys = sorted_keys(frontier.dom());
    lemma_sorted_keys_exist(frontier.dom());
    let after = clocks_bytes(frontier, keys) + rest;
    assert(frontier_bytes(frontier) + rest =~= u16_bytes(frontier.dom().len() as int) + after);
    lemma_take_u16(frontier.dom().len() as int, after);
    assert forall|i: int| 0 <= i < keys.len() implies (#[trigger] keys[i]).0
        < 0x1_0000_0000_0000_0000 by {
        assert(keys.to_set().contains(keys[i]));
        assert(frontier.contains_key(keys[i]));
    }
    lemma_take_clocks(Map::empty(), frontier, keys, rest);
    let read = with_clocks(Map::empty(), frontier, keys);
    assert forall|k: PartitionId| read.dom().contains(k) <==> frontier.dom().contains(k) by {
        lemma_with_clocks(Map::empty(), frontier, keys, k);
        assert(keys.to_set().contains(k) <==> keys.contains(k));
    }
    assert forall|k: PartitionId| #[trigger] read.contains_key(k) implies read[k] == frontier[k] by {
        lemma_with_clocks(Map::empty(), frontier, keys, k);
    }
    assert(read.dom() =~= frontier.dom());
    assert(read =~= frontier);
}

#[verifier::spinoff_prover]
#[verifier::rlimit(30)]
proof fn lemma_take_remote(remote: RemoteDepView, rest: Seq<u8>)
    requires
        frontier_fits(remote.causal_frontier),
    ensures
        take_remote_dep(remote.port_kind, remote_bytes(remote) + rest) == Ok::<
            (RemoteDepView, Seq<u8>),
            DispatchError,
        >((wire_remote(remote), rest)),
{
    let s8 = u64_bytes(remote.causal_scope.scope_bits) + rest;
    let s7 = seq![(remote.capability.0 % 256) as u8] + s8;
    let s6 = u64_bytes(remote.emitted_class.0) + s7;
    let s5 = pid_bytes(remote.source_authority) + s6;
    let s4 = frontier_bytes(remote.causal_frontier) + s5;
    let s3 = payload_kind_bytes(remote.payload_kind) + s4;
    let s2 = u64_bytes(remote.source_version) + s3;
    let s1 = uid_bytes(remote.source_uid) + s2;
    assert(remote_bytes(remote) + rest =~= pid_bytes(remote.source_partition) + s1);
    lemma_take_pid(remote.source_partition, s1);
    lemma_take_uid(remote.source_uid, s2);
    lemma_take_u64(remote.source_version, s3);
    lemma_take_payload_kind(remote.payload_kind, s4);
    lemma_take_frontier(remote.causal_frontier, s5);
    lemma_take_pid(remote.source_authority, s6);
    lemma_take_u64(remote.emitted_class.0, s7);
    lemma_take_u8(seq![(remote.capability.0 % 256) as u8], s8);
    lemma_take_u64(remote.causal_scope.scope_bits, rest);
}

// ── Instructions ─────────────────────────────────────────────────────────────

#[verifier::spinoff_prover]
#[verifier::rlimit(30)]
proof fn lemma_node_create_round_trip(op: IsaOpView, rest: Seq<u8>)
    requires
        op is NodeCreate,
        op_fits(op),
        op_ordered(op),
    ensures
        take_node_create(payload_of(op) + rest) == Ok::<(IsaOpView, Seq<u8>), DispatchError>(
            (wire_form(op), rest),
        ),
{
    broadcast use {
        lemma_take_u8,
        lemma_take_pair,
        lemma_take_u32,
        lemma_take_u64,
        lemma_take_uid,
        lemma_take_pid,
        lemma_take_text,
    };

    let s = payload_of(op) + rest;
    match op {
        IsaOpView::NodeCreate { id, typ, rule, attrs } => {
            let tail = attrs_bytes(attrs) + rest;
            assert(s =~= uid_bytes(id) + (text_bytes(typ) + (seq![node_kind_byte(rule)] + tail)));
            assert(take_uid(s) == Ok::<(Uid, Seq<u8>), DispatchError>(
                (wire_uid(id), text_bytes(typ) + (seq![node_kind_byte(rule)] + tail)),
            ));
            assert(take_text(text_bytes(typ) + (seq![node_kind_byte(rule)] + tail)) == Ok::<
                (Seq<char>, Seq<u8>),
                DispatchError,
            >((typ, seq![node_kind_byte(rule)] + tail)));
            lemma_take_attrs(attrs, rest);
        },
        _ => {},
    }
}

/// The dependency byte, the port kind and the port name that a dependency is written with.
spec fn dep_frame(dep: DepKindView) -> (u8, PortKind, Seq<char>) {
    match dep {
        DepKindView::Local(Some((name, kind))) => (0x00u8, kind, name),
        DepKindView::Local(None) => (0x00u8, PortKind::Signal, Seq::<char>::empty()),
        DepKindView::Remote(remote) => (0x01u8, remote.port_kind, Seq::<char>::empty()),
    }
}

#[verifier::spinoff_prover]
#[verifier::rlimit(30)]
proof fn lemma_dep_round_trip(dep: DepKindView, rest: Seq<u8>) -> (s: (Seq<u8>, Seq<u8>, Seq<u8>))
    requires
        match dep {
            DepKindView::Local(Some((name, _))) => text_fits(name),
            DepKindView::Local(None) => true,
            DepKindView::Remote(remote) => frontier_fits(remote.causal_frontier),
        },
    ensures
        ({
            let (first, kind, name) = dep_frame(dep);
            &&& take_u8(dep_bytes(dep) + rest) == Ok::<(u8, Seq<u8>), DispatchError>((first, s.0))
            &&& take_u8(s.0) == Ok::<(u8, Seq<u8>), DispatchError>((port_kind_byte(kind), s.1))
            &&& take_text(s.1) == Ok::<(Seq<char>, Seq<u8>), DispatchError>((name, s.2))
            &&& port_kind_of(port_kind_byte(kind)) == Some(kind)
            &&& take_dep(first, kind, name, s.2) == Ok::<(DepKindView, Seq<u8>), DispatchError>(
                (wire_dep(dep), rest),
            )
        }),
{
    let (first, kind, name) = dep_frame(dep);
    let tail = match dep {
        DepKindView::Remote(remote) => remote_bytes(remote) + rest,
        _ => rest,
    };
    let after = text_bytes(name) + tail;
    assert(encode_utf8(Seq::<char>::empty()) =~= Seq::<u8>::empty());
    assert(dep_bytes(dep) + rest =~= seq![first, port_kind_byte(kind)] + after);
    lemma_take_pair(seq![first, port_kind_byte(kind)], after);
    lemma_take_u8(seq![port_kind_byte(kind)], after);
    lemma_take_text(name, tail);
    if let DepKindView::Remote(remote) = dep {
        lemma_take_remote(remote, rest);
    }
    (seq![port_kind_byte(kind)] + after, after, tail)
}

#[verifier::spinoff_prover]
#[verifier::rlimit(30)]
proof fn lemma_edge_connect_round_trip(op: IsaOpView, rest: Seq<u8>)
    requires
        op is EdgeConnect,
        op_fits(op),
        op_ordered(op),
    ensures
        take_edge_connect(payload_of(op) + rest) == Ok::<(IsaOpView, Seq<u8>), DispatchError>(
            (wire_form(op), rest),
        ),
{
    match op {
        IsaOpView::EdgeConnect { id, typ, src, tgt, dep } => {
            let s3 = dep_bytes(dep) + rest;
            let s2 = uid_bytes(tgt) + s3;
            let s1 = uid_bytes(src) + s2;
            assert(payload_of(op) + rest =~= uid_bytes(id) + s1);
            lemma_take_uid(id, s1);
            lemma_take_uid(src, s2);
            lemma_take_uid(tgt, s3);
            let _ = lemma_dep_round_trip(dep, rest);
        },
        _ => {},
    }
}

#[verifier::spinoff_prover]
#[verifier::rlimit(30)]
proof fn lemma_set_value_round_trip(op: IsaOpView, rest: Seq<u8>)
    requires
        op is SetValue,
        op_fits(op),
        op_ordered(op),
    ensures
        take_set_value(payload_of(op) + rest) == Ok::<(IsaOpView, Seq<u8>), DispatchError>(
            (wire_form(op), rest),
        ),
{
    broadcast use {
        lemma_take_u8,
        lemma_take_pair,
        lemma_take_u32,
        lemma_take_u64,
        lemma_take_uid,
        lemma_take_pid,
        lemma_take_text,
    };

    let s = payload_of(op) + rest;
    match op {
        IsaOpView::SetValue { node, val } => {
            lemma_take_ternary(val, rest);
            assert(s =~= uid_bytes(node) + (seq![signed_byte(ternary_byte(val))] + rest));
        },
        _ => {},
    }
}

#[verifier::spinoff_prover]
#[verifier::rlimit(30)]
proof fn lemma_subscribe_round_trip(op: IsaOpView, rest: Seq<u8>)
    requires
        op is Subscribe,
        op_fits(op),
        op_ordered(op),
    ensures
        take_subscribe(payload_of(op) + rest) == Ok::<(IsaOpView, Seq<u8>), DispatchError>(
            (wire_form(op), rest),
        ),
{
    broadcast use {
        lemma_take_u8,
        lemma_take_pair,
        lemma_take_u32,
        lemma_take_u64,
        lemma_take_uid,
        lemma_take_pid,
        lemma_take_text,
    };

    let s = payload_of(op) + rest;
    match op {
        IsaOpView::Subscribe { source, subscriber } => {
            assert(s =~= uid_bytes(source) + (uid_bytes(subscriber) + rest));
        },
        _ => {},
    }
}

#[verifier::spinoff_prover]
#[verifier::rlimit(30)]
proof fn lemma_set_mode_round_trip(op: IsaOpView, rest: Seq<u8>)
    requires
        op is SetMode,
        op_fits(op),
        op_ordered(op),
    ensures
        take_set_mode(payload_of(op) + rest) == Ok::<(IsaOpView, Seq<u8>), DispatchError>(
            (wire_form(op), rest),
        ),
{
    broadcast use {
        lemma_take_u8,
        lemma_take_pair,
        lemma_take_u32,
        lemma_take_u64,
        lemma_take_uid,
        lemma_take_pid,
        lemma_take_text,
    };

    let s = payload_of(op) + rest;
    match op {
        IsaOpView::SetMode { node, mode } => {
            assert(s =~= uid_bytes(node) + (seq![exec_mode_byte(mode)] + rest));
        },
        _ => {},
    }
}

#[verifier::spinoff_prover]
#[verifier::rlimit(30)]
proof fn lemma_stabilize_round_trip(op: IsaOpView, rest: Seq<u8>)
    requires
        op is Stabilize,
        op_fits(op),
        op_ordered(op),
    ensures
        take_stabilize(payload_of(op) + rest) == Ok::<(IsaOpView, Seq<u8>), DispatchError>(
            (wire_form(op), rest),
        ),
{
    broadcast use {
        lemma_take_u8,
        lemma_take_pair,
        lemma_take_u32,
        lemma_take_u64,
        lemma_take_uid,
        lemma_take_pid,
        lemma_take_text,
    };

    let s = payload_of(op) + rest;
    match op {
        IsaOpView::Stabilize { region } => {
            match region {
                None => {
                    assert(s =~= u32_bytes(0) + rest);
                },
                Some(ids) => {
                    assert(s =~= u32_bytes(ids.len() as int) + (uids_bytes(ids) + rest));
                    lemma_take_uids(Seq::empty(), ids, rest);
                    assert(Seq::<Uid>::empty() + wire_uids(ids) =~= wire_uids(ids));
                    if ids.len() == 0 {
                        assert(uids_bytes(ids) + rest =~= rest);
                    }
                },
            }
        },
        _ => {},
    }
}

#[verifier::spinoff_prover]
#[verifier::rlimit(30)]
proof fn lemma_partition_create_round_trip(op: IsaOpView, rest: Seq<u8>)
    requires
        op is PartitionCreate,
        op_fits(op),
        op_ordered(op),
    ensures
        take_partition_create(payload_of(op) + rest) == Ok::<(IsaOpView, Seq<u8>), DispatchError>(
            (wire_form(op), rest),
        ),
{
    broadcast use {
        lemma_take_u8,
        lemma_take_pair,
        lemma_take_u32,
        lemma_take_u64,
        lemma_take_uid,
        lemma_take_pid,
        lemma_take_text,
    };

    let s = payload_of(op) + rest;
    match op {
        IsaOpView::PartitionCreate { id, authority_root, lattice_class, causal_domain } => {
            assert(s =~= pid_bytes(id) + (pid_bytes(authority_root) + (u64_bytes(lattice_class.0)
                + (u64_bytes(causal_domain.scope_bits) + rest))));
        },
        _ => {},
    }
}

#[verifier::spinoff_prover]
#[verifier::rlimit(30)]
proof fn lemma_partition_bind_round_trip(op: IsaOpView, rest: Seq<u8>)
    requires
        op is PartitionBind,
        op_fits(op),
        op_ordered(op),
    ensures
        take_partition_bind(payload_of(op) + rest) == Ok::<(IsaOpView, Seq<u8>), DispatchError>(
            (wire_form(op), rest),
        ),
{
    broadcast use {
        lemma_take_u8,
        lemma_take_pair,
        lemma_take_u32,
        lemma_take_u64,
        lemma_take_uid,
        lemma_take_pid,
        lemma_take_text,
    };

    let s = payload_of(op) + rest;
    match op {
        IsaOpView::PartitionBind { node, partition } => {
            assert(s =~= uid_bytes(node) + (pid_bytes(partition) + rest));
        },
        _ => {},
    }
}

#[verifier::spinoff_prover]
#[verifier::rlimit(30)]
proof fn lemma_set_partition_authority_round_trip(op: IsaOpView, rest: Seq<u8>)
    requires
        op is SetPartitionAuthority,
        op_fits(op),
        op_ordered(op),
    ensures
        take_set_partition_authority(payload_of(op) + rest) == Ok::<(IsaOpView, Seq<u8>), DispatchError>(
            (wire_form(op), rest),
        ),
{
    broadcast use {
        lemma_take_u8,
        lemma_take_pair,
        lemma_take_u32,
        lemma_take_u64,
        lemma_take_uid,
        lemma_take_pid,
        lemma_take_text,
    };

    let s = payload_of(op) + rest;
    match op {
        IsaOpView::SetPartitionAuthority { partition, lattice_class, causal_domain } => {
            assert(s =~= pid_bytes(partition) + (u64_bytes(lattice_class.0) + (u64_bytes(
                causal_domain.scope_bits,
            ) + rest)));
        },
        _ => {},
    }
}

#[verifier::spinoff_prover]
#[verifier::rlimit(30)]
proof fn lemma_set_edge_label_round_trip(op: IsaOpView, rest: Seq<u8>)
    requires
        op is SetEdgeLabel,
        op_fits(op),
        op_ordered(op),
    ensures
        take_set_edge_label(payload_of(op) + rest) == Ok::<(IsaOpView, Seq<u8>), DispatchError>(
            (wire_form(op), rest),
        ),
{
    broadcast use {
        lemma_take_u8,
        lemma_take_pair,
        lemma_take_u32,
        lemma_take_u64,
        lemma_take_uid,
        lemma_take_pid,
        lemma_take_text,
    };

    let s = payload_of(op) + rest;
    match op {
        IsaOpView::SetEdgeLabel { source, target, label } => {
            assert(s =~= uid_bytes(source) + (uid_bytes(target) + (u64_bytes(label.lattice_class.0)
                + (seq![(label.capability.0 % 256) as u8] + (u64_bytes(
                label.causal_scope.scope_bits,
            ) + rest)))));
        },
        _ => {},
    }
}

#[verifier::spinoff_prover]
#[verifier::rlimit(30)]
proof fn lemma_set_stabilization_config_round_trip(op: IsaOpView, rest: Seq<u8>)
    requires
        op is SetStabilizationConfig,
        op_fits(op),
        op_ordered(op),
    ensures
        take_set_stabilization_config(payload_of(op) + rest) == Ok::<(IsaOpView, Seq<u8>), DispatchError>(
            (wire_form(op), rest),
        ),
{
    broadcast use {
        lemma_take_u8,
        lemma_take_pair,
        lemma_take_u32,
        lemma_take_u64,
        lemma_take_uid,
        lemma_take_pid,
        lemma_take_text,
    };

    let s = payload_of(op) + rest;
    match op {
        IsaOpView::SetStabilizationConfig { node, config } => {
            let tail = u32_bytes(config.budget.max_iterations as int) + (seq![
                convergence_byte(config.convergence_policy),
            ] + rest);
            assert(s =~= uid_bytes(node) + (seq![
                strategy_byte(config.strategy),
                stabilization_domain_byte(config.domain),
            ] + tail));
        },
        _ => {},
    }
}

#[verifier::spinoff_prover]
#[verifier::rlimit(30)]
proof fn lemma_set_execution_policy_round_trip(op: IsaOpView, rest: Seq<u8>)
    requires
        op is SetExecutionPolicy,
        op_fits(op),
        op_ordered(op),
    ensures
        take_set_execution_policy(payload_of(op) + rest) == Ok::<(IsaOpView, Seq<u8>), DispatchError>(
            (wire_form(op), rest),
        ),
{
    broadcast use {
        lemma_take_u8,
        lemma_take_pair,
        lemma_take_u32,
        lemma_take_u64,
        lemma_take_uid,
        lemma_take_pid,
        lemma_take_text,
    };

    let s = payload_of(op) + rest;
    match op {
        IsaOpView::SetExecutionPolicy { node, policy } => {
            assert(s =~= uid_bytes(node) + (seq![
                priority_byte(policy.queue_priority),
                retry_byte(policy.retry_policy),
            ] + rest));
        },
        _ => {},
    }
}

#[verifier::spinoff_prover]
#[verifier::rlimit(30)]
proof fn lemma_region_declare_round_trip(op: IsaOpView, rest: Seq<u8>)
    requires
        op is RegionDeclare,
        op_fits(op),
        op_ordered(op),
    ensures
        take_region_declare(payload_of(op) + rest) == Ok::<(IsaOpView, Seq<u8>), DispatchError>(
            (wire_form(op), rest),
        ),
{
    broadcast use {
        lemma_take_u8,
        lemma_take_pair,
        lemma_take_u32,
        lemma_take_u64,
        lemma_take_uid,
        lemma_take_pid,
        lemma_take_text,
    };

    let s = payload_of(op) + rest;
    match op {
        IsaOpView::RegionDeclare { root, boundary, stability, compile } => {
            let tail = seq![stability_byte(stability), compile_byte(compile)] + rest;
            assert(s =~= uid_bytes(root) + (boundary_bytes(boundary) + tail));
            lemma_take_boundary(boundary, tail);
        },
        _ => {},
    }
}

proof fn lemma_take_op(op: IsaOpView, rest: Seq<u8>)
    requires
        op_fits(op),
        op_ordered(op),
    ensures
        take_op(opcode_of(op), payload_of(op) + rest) == Ok::<(IsaOpView, Seq<u8>), DispatchError>(
            (wire_form(op), rest),
        ),
{
    broadcast use lemma_take_uid;

    match op {
        IsaOpView::NodeCreate { .. } => lemma_node_create_round_trip(op, rest),
        IsaOpView::EdgeConnect { .. } => lemma_edge_connect_round_trip(op, rest),
        IsaOpView::SetValue { .. } => lemma_set_value_round_trip(op, rest),
        IsaOpView::Subscribe { .. } => lemma_subscribe_round_trip(op, rest),
        IsaOpView::SetMode { .. } => lemma_set_mode_round_trip(op, rest),
        IsaOpView::Stabilize { .. } => lemma_stabilize_round_trip(op, rest),
        IsaOpView::PartitionCreate { .. } => lemma_partition_create_round_trip(op, rest),
        IsaOpView::PartitionBind { .. } => lemma_partition_bind_round_trip(op, rest),
        IsaOpView::SetPartitionAuthority { .. } => lemma_set_partition_authority_round_trip(op, rest),
        IsaOpView::SetEdgeLabel { .. } => lemma_set_edge_label_round_trip(op, rest),
        IsaOpView::SetStabilizationConfig { .. } => lemma_set_stabilization_config_round_trip(op, rest),
        IsaOpView::SetExecutionPolicy { .. } => lemma_set_execution_policy_round_trip(op, rest),
        IsaOpView::RegionDeclare { .. } => lemma_region_declare_round_trip(op, rest),
        _ => {},
    }
}

/// Parsing what was written of an instruction gives the instruction back, cut to what travels.
pub proof fn law_payload_round_trip(op: IsaOpView)
    requires
        op_fits(op),
        op_ordered(op),
    ensures
        op_in(opcode_of(op), payload_of(op)) == Ok::<IsaOpView, DispatchError>(wire_form(op)),
{
    let end = Seq::<u8>::empty();
    lemma_take_op(op, end);
    assert(payload_of(op) + end =~= payload_of(op));
}

// ── Parsing what was written of what was parsed ──────────────────────────────

/// The instruction travels under `opcode`, as it is.
#[verifier::opaque]
pub open spec fn travels(opcode: u16, op: IsaOpView) -> bool {
    opcode_of(op) == opcode && op_fits(op) && op_ordered(op) && wire_form(op) == op
}

/// The entry travels as it is.
pub open spec fn entry_travels(e: (Seq<char>, ValView)) -> bool {
    text_fits(e.0) && val_fits(e.1) && wire_val(e.1) == e.1
}

proof fn lemma_parsed_text(s: Seq<u8>)
    ensures
        take_text(s) matches Ok((text, _)) ==> text_fits(text),
{
    if take_text(s) is Ok {
        let rest = s.skip(2);
        let n = le_value(s.take(2)) as u16;
        decode_utf8_encode_utf8(rest.take(n as int));
    }
}

proof fn lemma_parsed_val(s: Seq<u8>)
    ensures
        take_val(s) matches Ok((val, _)) ==> val_fits(val) && wire_val(val) == val,
{
    lemma_parsed_text(s.skip(1));
    assert(0x7FF8_0000_0000_0000u64 & 0x7FFF_FFFF_FFFF_FFFFu64 > 0x7FF0_0000_0000_0000u64)
        by (bit_vector);
}

proof fn lemma_parsed_entries(before: Seq<(Seq<char>, ValView)>, count: nat, s: Seq<u8>)
    requires
        keys_ascending(before),
        forall|i: int| 0 <= i < before.len() ==> entry_travels(#[trigger] before[i]),
    ensures
        take_entries(before, count, s) matches Ok((attrs, _)) ==> {
            &&& keys_ascending(attrs)
            &&& attrs.len() <= before.len() + count
            &&& forall|i: int| 0 <= i < attrs.len() ==> entry_travels(#[trigger] attrs[i])
        },
    decreases count,
{
    if count > 0 {
        match take_text(s) {
            Ok((key, s1)) => {
                lemma_parsed_text(s);
                match take_val(s1) {
                    Ok((val, s2)) => {
                        lemma_parsed_val(s1);
                        lemma_with_attr_keys(before, key, val);
                        lemma_with_attr_every(
                            before,
                            key,
                            val,
                            |e: (Seq<char>, ValView)| entry_travels(e),
                        );
                        let next = with_attr(before, key, val);
                        assert forall|i: int| 0 <= i < next.len() implies entry_travels(
                            #[trigger] next[i],
                        ) by {
                            let f = |e: (Seq<char>, ValView)| entry_travels(e);
                            assert(f(next[i]));
                        }
                        lemma_parsed_entries(next, (count - 1) as nat, s2);
                    },
                    Err(_) => {},
                }
            },
            Err(_) => {},
        }
    }
}

proof fn lemma_parsed_uids(before: Seq<Uid>, count: nat, s: Seq<u8>)
    requires
        forall|i: int| 0 <= i < before.len() ==> wire_uid(#[trigger] before[i]) == before[i],
    ensures
        take_uids(before, count, s) matches Ok((ids, _)) ==> {
            &&& ids.len() == before.len() + count
            &&& wire_uids(ids) == ids
        },
    decreases count,
{
    if count == 0 {
        assert(wire_uids(before) =~= before);
    } else {
        match take_uid(s) {
            Ok((id, rest)) => {
                lemma_parsed_uids(before.push(id), (count - 1) as nat, rest);
            },
            Err(_) => {},
        }
    }
}

#[verifier::spinoff_prover]
#[verifier::rlimit(30)]
proof fn lemma_parsed_node_create(s: Seq<u8>)
    ensures
        take_node_create(s) matches Ok((op, _)) ==> travels(0x0001, op),
{
    reveal(travels);
    match take_uid(s) {
        Ok((id, s1)) => {
            lemma_parsed_text(s1);
            match take_node_create(s) {
                Ok((op, _)) => {
                    let s2 = take_text(s1)->Ok_0.1;
                    let s3 = take_u8(s2)->Ok_0.1;
                    let (count, s4) = take_u16(s3)->Ok_0;
                    lemma_parsed_entries(Seq::empty(), count as nat, s4);
                    let attrs = op->NodeCreate_attrs;
                    assert forall|i: int| 0 <= i < attrs.len() implies text_fits(
                        #[trigger] attrs[i].0,
                    ) && val_fits(attrs[i].1) by {
                        assert(entry_travels(attrs[i]));
                    }
                    assert forall|i: int| 0 <= i < attrs.len() implies wire_attrs(attrs)[i]
                        == #[trigger] attrs[i] by {
                        assert(entry_travels(attrs[i]));
                    }
                    assert(wire_attrs(attrs) =~= attrs);
                },
                Err(_) => {},
            }
        },
        Err(_) => {},
    }
}

proof fn lemma_parsed_frontier(before: Map<PartitionId, u64>, count: nat, s: Seq<u8>)
    requires
        before.dom().finite(),
        forall|k: PartitionId| #[trigger]
            before.contains_key(k) ==> k.0 < 0x1_0000_0000_0000_0000,
    ensures
        take_frontier(before, count, s) matches Ok((frontier, _)) ==> {
            &&& frontier.dom().finite()
            &&& frontier.dom().len() <= before.dom().len() + count
            &&& forall|k: PartitionId| #[trigger]
                frontier.contains_key(k) ==> k.0 < 0x1_0000_0000_0000_0000
        },
    decreases count,
{
    if count > 0 {
        match take_pid(s) {
            Ok((pid, s1)) => {
                match take_u64(s1) {
                    Ok((clock, s2)) => {
                        let next = before.insert(pid, clock);
                        assert(next.dom() =~= before.dom().insert(pid));
                        lemma_parsed_frontier(next, (count - 1) as nat, s2);
                    },
                    Err(_) => {},
                }
            },
            Err(_) => {},
        }
    }
}

#[verifier::spinoff_prover]
#[verifier::rlimit(30)]
proof fn lemma_parsed_remote(port_kind: PortKind, s: Seq<u8>)
    ensures
        take_remote_dep(port_kind, s) matches Ok((remote, _)) ==> frontier_fits(
            remote.causal_frontier,
        ) && wire_remote(remote) == remote,
{
    match take_remote_dep(port_kind, s) {
        Ok((remote, _)) => {
            let s1 = take_pid(s)->Ok_0.1;
            let s2 = take_uid(s1)->Ok_0.1;
            let s3 = take_u64(s2)->Ok_0.1;
            let s4 = take_payload_kind(s3)->Ok_0.1;
            let (count, s5) = take_u16(s4)->Ok_0;
            assert(Map::<PartitionId, u64>::empty().dom() =~= Set::empty());
            lemma_parsed_frontier(Map::empty(), count as nat, s5);
        },
        Err(_) => {},
    }
}

#[verifier::spinoff_prover]
#[verifier::rlimit(30)]
proof fn lemma_parsed_edge_connect(s: Seq<u8>)
    ensures
        take_edge_connect(s) matches Ok((op, _)) ==> travels(0x0002, op),
{
    reveal(travels);
    match take_edge_connect(s) {
        Ok((op, _)) => {
            let s1 = take_uid(s)->Ok_0.1;
            let s2 = take_uid(s1)->Ok_0.1;
            let s3 = take_uid(s2)->Ok_0.1;
            let (dep, s4) = take_u8(s3)->Ok_0;
            let (port, s5) = take_u8(s4)->Ok_0;
            let (name, s6) = take_text(s5)->Ok_0;
            lemma_parsed_text(s5);
            lemma_parsed_remote(port_kind_of(port)->0, s6);
        },
        Err(_) => {},
    }
}

#[verifier::spinoff_prover]
#[verifier::rlimit(30)]
proof fn lemma_parsed_stabilize(s: Seq<u8>)
    ensures
        take_stabilize(s) matches Ok((op, _)) ==> travels(0x000B, op),
{
    reveal(travels);
    match take_u32(s) {
        Ok((count, rest)) => {
            lemma_parsed_uids(Seq::empty(), count as nat, rest);
        },
        Err(_) => {},
    }
}

#[verifier::spinoff_prover]
#[verifier::rlimit(30)]
proof fn lemma_parsed_region_declare(s: Seq<u8>)
    ensures
        take_region_declare(s) matches Ok((op, _)) ==> travels(0x0012, op),
{
    reveal(travels);
    match take_uid(s) {
        Ok((root, s1)) => {
            let s2 = s1.skip(1);
            match take_u32(s2) {
                Ok((count, rest)) => {
                    lemma_parsed_uids(Seq::empty(), count as nat, rest);
                },
                Err(_) => {},
            }
        },
        Err(_) => {},
    }
}

#[verifier::spinoff_prover]
#[verifier::rlimit(30)]
proof fn lemma_parsed_set_value(s: Seq<u8>)
    ensures
        take_set_value(s) matches Ok((op, _)) ==> travels(0x0003, op),
{
    reveal(travels);
}

#[verifier::spinoff_prover]
#[verifier::rlimit(30)]
proof fn lemma_parsed_subscribe(s: Seq<u8>)
    ensures
        take_subscribe(s) matches Ok((op, _)) ==> travels(0x0005, op),
{
    reveal(travels);
}

#[verifier::spinoff_prover]
#[verifier::rlimit(30)]
proof fn lemma_parsed_set_mode(s: Seq<u8>)
    ensures
        take_set_mode(s) matches Ok((op, _)) ==> travels(0x0009, op),
{
    reveal(travels);
}

#[verifier::spinoff_prover]
#[verifier::rlimit(30)]
proof fn lemma_parsed_partition_create(s: Seq<u8>)
    ensures
        take_partition_create(s) matches Ok((op, _)) ==> travels(0x000C, op),
{
    reveal(travels);
}

#[verifier::spinoff_prover]
#[verifier::rlimit(30)]
proof fn lemma_parsed_partition_bind(s: Seq<u8>)
    ensures
        take_partition_bind(s) matches Ok((op, _)) ==> travels(0x000D, op),
{
    reveal(travels);
}

#[verifier::spinoff_prover]
#[verifier::rlimit(30)]
proof fn lemma_parsed_set_partition_authority(s: Seq<u8>)
    ensures
        take_set_partition_authority(s) matches Ok((op, _)) ==> travels(0x000E, op),
{
    reveal(travels);
}

#[verifier::spinoff_prover]
#[verifier::rlimit(30)]
proof fn lemma_parsed_set_edge_label(s: Seq<u8>)
    ensures
        take_set_edge_label(s) matches Ok((op, _)) ==> travels(0x000F, op),
{
    reveal(travels);
}

#[verifier::spinoff_prover]
#[verifier::rlimit(30)]
proof fn lemma_parsed_set_stabilization_config(s: Seq<u8>)
    ensures
        take_set_stabilization_config(s) matches Ok((op, _)) ==> travels(0x0010, op),
{
    reveal(travels);
}

#[verifier::spinoff_prover]
#[verifier::rlimit(30)]
proof fn lemma_parsed_set_execution_policy(s: Seq<u8>)
    ensures
        take_set_execution_policy(s) matches Ok((op, _)) ==> travels(0x0011, op),
{
    reveal(travels);
}

#[verifier::spinoff_prover]
#[verifier::rlimit(30)]
proof fn lemma_parsed_op(opcode: u16, s: Seq<u8>, op: IsaOpView)
    requires
        op_in(opcode, s) == Ok::<IsaOpView, DispatchError>(op),
    ensures
        travels(opcode, op),
{
    if opcode == 0x0001 {
        lemma_parsed_node_create(s);
    } else if opcode == 0x0002 {
        lemma_parsed_edge_connect(s);
    } else if opcode == 0x0003 {
        lemma_parsed_set_value(s);
    } else if opcode == 0x0005 {
        lemma_parsed_subscribe(s);
    } else if opcode == 0x0009 {
        lemma_parsed_set_mode(s);
    } else if opcode == 0x000B {
        lemma_parsed_stabilize(s);
    } else if opcode == 0x000C {
        lemma_parsed_partition_create(s);
    } else if opcode == 0x000D {
        lemma_parsed_partition_bind(s);
    } else if opcode == 0x000E {
        lemma_parsed_set_partition_authority(s);
    } else if opcode == 0x000F {
        lemma_parsed_set_edge_label(s);
    } else if opcode == 0x0010 {
        lemma_parsed_set_stabilization_config(s);
    } else if opcode == 0x0011 {
        lemma_parsed_set_execution_policy(s);
    } else if opcode == 0x0012 {
        lemma_parsed_region_declare(s);
    } else {
        reveal(travels);
    }
}

/// What was parsed travels as it is: written down and parsed again, it is the same instruction.
pub proof fn law_parsed_instruction_travels(opcode: u16, s: Seq<u8>, op: IsaOpView)
    requires
        op_in(opcode, s) == Ok::<IsaOpView, DispatchError>(op),
    ensures
        opcode_of(op) == opcode,
        wire_form(op) == op,
        op_in(opcode, payload_of(op)) == Ok::<IsaOpView, DispatchError>(op),
{
    lemma_parsed_op(opcode, s, op);
    reveal(travels);
    law_payload_round_trip(op);
}

/// Every NaN is written in the one canonical form, and every other float as it is.
pub proof fn law_nan_is_canonical(bits: u64)
    ensures
        is_nan_bits(bits) ==> val_bytes(ValView::Float(bits)) == seq![0x03u8] + u64_bytes(
            0x7FF8_0000_0000_0000,
        ),
        !is_nan_bits(bits) ==> val_bytes(ValView::Float(bits)) == seq![0x03u8] + u64_bytes(bits),
        canonical_float(canonical_float(bits)) == canonical_float(bits),
{
    assert(0x7FF8_0000_0000_0000u64 & 0x7FFF_FFFF_FFFF_FFFFu64 > 0x7FF0_0000_0000_0000u64)
        by (bit_vector);
}

// ── Payloads that are cut short, and payloads with bytes behind them ─────────

/// Reading ran out of bytes: fewer were left than were needed.
pub open spec fn cut_short<A>(r: Result<A, DispatchError>) -> bool {
    r matches Err(DispatchError::PayloadTruncated { needed, available }) && available < needed
}

/// What was read, with `more` behind the bytes that were left.
pub open spec fn extended<A>(r: Result<(A, Seq<u8>), DispatchError>, more: Seq<u8>) -> Result<
    (A, Seq<u8>),
    DispatchError,
> {
    match r {
        Ok((v, rest)) => Ok((v, rest + more)),
        Err(e) => Err(e),
    }
}

proof fn lemma_extend(s: Seq<u8>, more: Seq<u8>, n: int)
    requires
        0 <= n <= s.len(),
    ensures
        (s + more).take(n) == s.take(n),
        (s + more).skip(n) == s.skip(n) + more,
{
    assert((s + more).take(n) =~= s.take(n));
    assert((s + more).skip(n) =~= s.skip(n) + more);
}

broadcast proof fn lemma_stable_u8(s: Seq<u8>, more: Seq<u8>)
    ensures
        !cut_short(take_u8(s)) ==> #[trigger] take_u8(s + more) == extended(
            take_u8(s),
            more,
        ),
{
    if s.len() >= 1 {
        lemma_extend(s, more, 1);
    }
}

broadcast proof fn lemma_stable_u16(s: Seq<u8>, more: Seq<u8>)
    ensures
        !cut_short(take_u16(s)) ==> #[trigger] take_u16(s + more) == extended(
            take_u16(s),
            more,
        ),
{
    if s.len() >= 2 {
        lemma_extend(s, more, 2);
    }
}

broadcast proof fn lemma_stable_u32(s: Seq<u8>, more: Seq<u8>)
    ensures
        !cut_short(take_u32(s)) ==> #[trigger] take_u32(s + more) == extended(
            take_u32(s),
            more,
        ),
{
    if s.len() >= 4 {
        lemma_extend(s, more, 4);
    }
}

broadcast proof fn lemma_stable_u64(s: Seq<u8>, more: Seq<u8>)
    ensures
        !cut_short(take_u64(s)) ==> #[trigger] take_u64(s + more) == extended(
            take_u64(s),
            more,
        ),
{
    if s.len() >= 8 {
        lemma_extend(s, more, 8);
    }
}

broadcast proof fn lemma_stable_uid(s: Seq<u8>, more: Seq<u8>)
    ensures
        !cut_short(take_uid(s)) ==> #[trigger] take_uid(s + more) == extended(
            take_uid(s),
            more,
        ),
{
    lemma_stable_u64(s, more);
}

broadcast proof fn lemma_stable_pid(s: Seq<u8>, more: Seq<u8>)
    ensures
        !cut_short(take_pid(s)) ==> #[trigger] take_pid(s + more) == extended(
            take_pid(s),
            more,
        ),
{
    lemma_stable_u64(s, more);
}

broadcast proof fn lemma_stable_text(s: Seq<u8>, more: Seq<u8>)
    ensures
        !cut_short(take_text(s)) ==> #[trigger] take_text(s + more) == extended(
            take_text(s),
            more,
        ),
{
    lemma_stable_u16(s, more);
    if let Ok((n, s1)) = take_u16(s) {
        if s1.len() >= n {
            lemma_extend(s1, more, n as int);
        }
    }
}

broadcast proof fn lemma_stable_blob(s: Seq<u8>, more: Seq<u8>)
    ensures
        !cut_short(take_blob(s)) ==> #[trigger] take_blob(s + more) == extended(
            take_blob(s),
            more,
        ),
{
    lemma_stable_u32(s, more);
    if let Ok((n, s1)) = take_u32(s) {
        if s1.len() >= n {
            lemma_extend(s1, more, n as int);
        }
    }
}

broadcast proof fn lemma_stable_ternary(s: Seq<u8>, more: Seq<u8>)
    ensures
        !cut_short(take_ternary(s)) ==> #[trigger] take_ternary(s + more) == extended(
            take_ternary(s),
            more,
        ),
{
    lemma_stable_u8(s, more);
}

#[verifier::spinoff_prover]
#[verifier::rlimit(30)]
broadcast proof fn lemma_stable_val(s: Seq<u8>, more: Seq<u8>)
    ensures
        !cut_short(take_val(s)) ==> #[trigger] take_val(s + more) == extended(
            take_val(s),
            more,
        ),
{
    broadcast use {
        lemma_stable_u8,
        lemma_stable_u64,
        lemma_stable_text,
        lemma_stable_blob,
        lemma_stable_ternary,
    };

}

broadcast proof fn lemma_stable_entries(attrs: Seq<(Seq<char>, ValView)>, count: nat, s: Seq<u8>, more: Seq<u8>)
    ensures
        !cut_short(take_entries(attrs, count, s)) ==> #[trigger] take_entries(attrs, count, s + more) == extended(
            take_entries(attrs, count, s),
            more,
        ),
    decreases count,
{
    broadcast use {lemma_stable_text, lemma_stable_val};

    if count > 0 {
        if let Ok((key, s1)) = take_text(s) {
            if let Ok((val, s2)) = take_val(s1) {
                lemma_stable_entries(with_attr(attrs, key, val), (count - 1) as nat, s2, more);
            }
        }
    }
}

broadcast proof fn lemma_stable_uids(ids: Seq<Uid>, count: nat, s: Seq<u8>, more: Seq<u8>)
    ensures
        !cut_short(take_uids(ids, count, s)) ==> #[trigger] take_uids(ids, count, s + more) == extended(
            take_uids(ids, count, s),
            more,
        ),
    decreases count,
{
    broadcast use lemma_stable_uid;

    if count > 0 {
        if let Ok((id, s1)) = take_uid(s) {
            lemma_stable_uids(ids.push(id), (count - 1) as nat, s1, more);
        }
    }
}

broadcast proof fn lemma_stable_frontier(frontier: Map<PartitionId, u64>, count: nat, s: Seq<u8>, more: Seq<u8>)
    ensures
        !cut_short(take_frontier(frontier, count, s)) ==> #[trigger] take_frontier(frontier, count, s + more) == extended(
            take_frontier(frontier, count, s),
            more,
        ),
    decreases count,
{
    broadcast use {lemma_stable_pid, lemma_stable_u64};

    if count > 0 {
        if let Ok((pid, s1)) = take_pid(s) {
            if let Ok((clock, s2)) = take_u64(s1) {
                lemma_stable_frontier(
                    frontier.insert(pid, clock),
                    (count - 1) as nat,
                    s2,
                    more,
                );
            }
        }
    }
}

broadcast proof fn lemma_stable_payload_kind(s: Seq<u8>, more: Seq<u8>)
    ensures
        !cut_short(take_payload_kind(s)) ==> #[trigger] take_payload_kind(s + more) == extended(
            take_payload_kind(s),
            more,
        ),
{
    broadcast use lemma_stable_u8;

}

broadcast proof fn lemma_stable_provenance(s: Seq<u8>, more: Seq<u8>)
    ensures
        !cut_short(take_provenance(s)) ==> #[trigger] take_provenance(s + more) == extended(
            take_provenance(s),
            more,
        ),
{
    broadcast use {lemma_stable_u8, lemma_stable_u64, lemma_stable_pid};

}

#[verifier::spinoff_prover]
#[verifier::rlimit(30)]
broadcast proof fn lemma_stable_boundary(s: Seq<u8>, more: Seq<u8>)
    ensures
        !cut_short(take_boundary(s)) ==> #[trigger] take_boundary(s + more) == extended(
            take_boundary(s),
            more,
        ),
{
    broadcast use {lemma_stable_u8, lemma_stable_u32, lemma_stable_pid, lemma_stable_uids};

}

#[verifier::spinoff_prover]
#[verifier::rlimit(30)]
broadcast proof fn lemma_stable_remote_dep(port_kind: PortKind, s: Seq<u8>, more: Seq<u8>)
    ensures
        !cut_short(take_remote_dep(port_kind, s)) ==> #[trigger] take_remote_dep(port_kind, s + more) == extended(
            take_remote_dep(port_kind, s),
            more,
        ),
{
    broadcast use {
        lemma_stable_u16,
        lemma_stable_u64,
        lemma_stable_uid,
        lemma_stable_pid,
        lemma_stable_payload_kind,
        lemma_stable_frontier,
        lemma_stable_provenance,
    };

}

broadcast proof fn lemma_stable_dep(dep: u8, port_kind: PortKind, name: Seq<char>, s: Seq<u8>, more: Seq<u8>)
    ensures
        !cut_short(take_dep(dep, port_kind, name, s)) ==> #[trigger] take_dep(dep, port_kind, name, s + more) == extended(
            take_dep(dep, port_kind, name, s),
            more,
        ),
{
    broadcast use lemma_stable_remote_dep;

}

broadcast proof fn lemma_stable_attrs(s: Seq<u8>, more: Seq<u8>)
    ensures
        !cut_short(take_attrs(s)) ==> #[trigger] take_attrs(s + more) == extended(
            take_attrs(s),
            more,
        ),
{
    broadcast use {lemma_stable_u16, lemma_stable_entries};

}

#[verifier::spinoff_prover]
#[verifier::rlimit(30)]
proof fn lemma_stable_node_create(s: Seq<u8>, more: Seq<u8>)
    ensures
        !cut_short(take_node_create(s)) ==> take_node_create(s + more) == extended(
            take_node_create(s),
            more,
        ),
{
    broadcast use {lemma_stable_u8, lemma_stable_uid, lemma_stable_text, lemma_stable_attrs};

}

#[verifier::spinoff_prover]
#[verifier::rlimit(30)]
proof fn lemma_stable_edge_connect(s: Seq<u8>, more: Seq<u8>)
    ensures
        !cut_short(take_edge_connect(s)) ==> take_edge_connect(s + more) == extended(
            take_edge_connect(s),
            more,
        ),
{
    broadcast use {lemma_stable_u8, lemma_stable_uid, lemma_stable_text, lemma_stable_dep};

}

#[verifier::spinoff_prover]
#[verifier::rlimit(30)]
proof fn lemma_stable_set_value(s: Seq<u8>, more: Seq<u8>)
    ensures
        !cut_short(take_set_value(s)) ==> take_set_value(s + more) == extended(
            take_set_value(s),
            more,
        ),
{
    broadcast use {lemma_stable_uid, lemma_stable_ternary};

}

#[verifier::spinoff_prover]
#[verifier::rlimit(30)]
proof fn lemma_stable_subscribe(s: Seq<u8>, more: Seq<u8>)
    ensures
        !cut_short(take_subscribe(s)) ==> take_subscribe(s + more) == extended(
            take_subscribe(s),
            more,
        ),
{
    broadcast use lemma_stable_uid;

}

#[verifier::spinoff_prover]
#[verifier::rlimit(30)]
proof fn lemma_stable_set_mode(s: Seq<u8>, more: Seq<u8>)
    ensures
        !cut_short(take_set_mode(s)) ==> take_set_mode(s + more) == extended(
            take_set_mode(s),
            more,
        ),
{
    broadcast use {lemma_stable_u8, lemma_stable_uid};

}

#[verifier::spinoff_prover]
#[verifier::rlimit(30)]
proof fn lemma_stable_stabilize(s: Seq<u8>, more: Seq<u8>)
    ensures
        !cut_short(take_stabilize(s)) ==> take_stabilize(s + more) == extended(
            take_stabilize(s),
            more,
        ),
{
    broadcast use {lemma_stable_u32, lemma_stable_uids};

}

#[verifier::spinoff_prover]
#[verifier::rlimit(30)]
proof fn lemma_stable_partition_create(s: Seq<u8>, more: Seq<u8>)
    ensures
        !cut_short(take_partition_create(s)) ==> take_partition_create(s + more) == extended(
            take_partition_create(s),
            more,
        ),
{
    broadcast use {lemma_stable_pid, lemma_stable_u64};

}

#[verifier::spinoff_prover]
#[verifier::rlimit(30)]
proof fn lemma_stable_partition_bind(s: Seq<u8>, more: Seq<u8>)
    ensures
        !cut_short(take_partition_bind(s)) ==> take_partition_bind(s + more) == extended(
            take_partition_bind(s),
            more,
        ),
{
    broadcast use {lemma_stable_uid, lemma_stable_pid};

}

#[verifier::spinoff_prover]
#[verifier::rlimit(30)]
proof fn lemma_stable_set_partition_authority(s: Seq<u8>, more: Seq<u8>)
    ensures
        !cut_short(take_set_partition_authority(s)) ==> take_set_partition_authority(s + more) == extended(
            take_set_partition_authority(s),
            more,
        ),
{
    broadcast use {lemma_stable_pid, lemma_stable_u64};

}

#[verifier::spinoff_prover]
#[verifier::rlimit(30)]
proof fn lemma_stable_set_edge_label(s: Seq<u8>, more: Seq<u8>)
    ensures
        !cut_short(take_set_edge_label(s)) ==> take_set_edge_label(s + more) == extended(
            take_set_edge_label(s),
            more,
        ),
{
    broadcast use {lemma_stable_u8, lemma_stable_u64, lemma_stable_uid};

}

#[verifier::spinoff_prover]
#[verifier::rlimit(30)]
proof fn lemma_stable_set_stabilization_config(s: Seq<u8>, more: Seq<u8>)
    ensures
        !cut_short(take_set_stabilization_config(s)) ==> take_set_stabilization_config(s + more) == extended(
            take_set_stabilization_config(s),
            more,
        ),
{
    broadcast use {lemma_stable_u8, lemma_stable_u32, lemma_stable_uid};

}

#[verifier::spinoff_prover]
#[verifier::rlimit(30)]
proof fn lemma_stable_set_execution_policy(s: Seq<u8>, more: Seq<u8>)
    ensures
        !cut_short(take_set_execution_policy(s)) ==> take_set_execution_policy(s + more) == extended(
            take_set_execution_policy(s),
            more,
        ),
{
    broadcast use {lemma_stable_u8, lemma_stable_uid};

}

#[verifier::spinoff_prover]
#[verifier::rlimit(30)]
proof fn lemma_stable_region_declare(s: Seq<u8>, more: Seq<u8>)
    ensures
        !cut_short(take_region_declare(s)) ==> take_region_declare(s + more) == extended(
            take_region_declare(s),
            more,
        ),
{
    broadcast use {lemma_stable_u8, lemma_stable_uid, lemma_stable_boundary};

}

#[verifier::spinoff_prover]
#[verifier::rlimit(30)]
proof fn lemma_stable_op(opcode: u16, s: Seq<u8>, more: Seq<u8>)
    ensures
        !cut_short(take_op(opcode, s)) ==> take_op(opcode, s + more) == extended(
            take_op(opcode, s),
            more,
        ),
{
    if opcode == 0x0001 {
        lemma_stable_node_create(s, more);
    } else if opcode == 0x0002 {
        lemma_stable_edge_connect(s, more);
    } else if opcode == 0x0003 {
        lemma_stable_set_value(s, more);
    } else if opcode == 0x0005 {
        lemma_stable_subscribe(s, more);
    } else if opcode == 0x0009 {
        lemma_stable_set_mode(s, more);
    } else if opcode == 0x000B {
        lemma_stable_stabilize(s, more);
    } else if opcode == 0x000C {
        lemma_stable_partition_create(s, more);
    } else if opcode == 0x000D {
        lemma_stable_partition_bind(s, more);
    } else if opcode == 0x000E {
        lemma_stable_set_partition_authority(s, more);
    } else if opcode == 0x000F {
        lemma_stable_set_edge_label(s, more);
    } else if opcode == 0x0010 {
        lemma_stable_set_stabilization_config(s, more);
    } else if opcode == 0x0011 {
        lemma_stable_set_execution_policy(s, more);
    } else if opcode == 0x0012 {
        lemma_stable_region_declare(s, more);
    } else {
        lemma_stable_uid(s, more);
    }
}

/// Bytes behind what was read change nothing: unless a payload is cut short, whatever it gives it
/// gives with any bytes behind it.
pub proof fn law_bytes_behind_change_nothing(opcode: u16, s: Seq<u8>, more: Seq<u8>)
    ensures
        !cut_short(op_in(opcode, s)) ==> op_in(opcode, s + more) == op_in(opcode, s),
{
    lemma_stable_op(opcode, s, more);
}

/// What was written of an instruction parses the same with any bytes behind it.
pub proof fn law_written_payload_ignores_bytes_behind(op: IsaOpView, junk: Seq<u8>)
    requires
        op_fits(op),
        op_ordered(op),
    ensures
        op_in(opcode_of(op), payload_of(op) + junk) == op_in(opcode_of(op), payload_of(op)),
{
    law_payload_round_trip(op);
    law_bytes_behind_change_nothing(opcode_of(op), payload_of(op), junk);
}

/// No proper beginning of what was written of an instruction parses: it is refused as cut short.
pub proof fn law_no_prefix_parses(op: IsaOpView, k: int)
    requires
        op_fits(op),
        op_ordered(op),
        0 <= k < payload_of(op).len(),
    ensures
        cut_short(op_in(opcode_of(op), payload_of(op).take(k))),
{
    let whole = payload_of(op);
    let prefix = whole.take(k);
    let more = whole.skip(k);
    let end = Seq::<u8>::empty();
    lemma_take_op(op, end);
    assert(whole + end =~= whole);
    assert(prefix + more =~= whole);
    lemma_stable_op(opcode_of(op), prefix, more);
    if !cut_short(take_op(opcode_of(op), prefix)) {
        let rest = take_op(opcode_of(op), prefix)->Ok_0.1;
        assert((rest + more).len() > 0);
    }
}

// ── Headers and preambles ────────────────────────────────────────────────────

/// The header of a record, as it is read.
pub open spec fn header_for(op: IsaOpView, ctx: RecordContext) -> ParsedHeader {
    ParsedHeader {
        opcode: opcode_of(op),
        flags: ctx.flags,
        length: ((48 + payload_of(op).len()) % 0x1_0000_0000) as u32,
        tenant_id: ctx.tenant_id,
        session_id: ctx.session_id,
        partition_id: ctx.partition_id,
        causal_epoch: ctx.causal_epoch,
        stream_seq: ctx.stream_seq,
    }
}

/// The first 48 bytes of a record hold the header that it was written with, and the rest is the
/// payload. Where the record is shorter than 4 GiB, the length in the header is the record's.
pub proof fn law_record_round_trip(op: IsaOpView, ctx: RecordContext)
    ensures
        record_of(op, ctx).len() == 48 + payload_of(op).len(),
        header_in(record_of(op, ctx).take(48)) == header_for(op, ctx),
        record_of(op, ctx).skip(48) == payload_of(op),
        record_of(op, ctx).len() < 0x1_0000_0000 ==> header_for(op, ctx).length == record_of(
            op,
            ctx,
        ).len(),
{
    broadcast use lemma_le_bytes_len;

    let length = 48 + payload_of(op).len();
    let head = header_bytes(opcode_of(op), length as int, ctx);
    assert(record_of(op, ctx).take(48) =~= head);
    assert(record_of(op, ctx).skip(48) =~= payload_of(op));
    lemma_byte_ranges();
    assert(head.subrange(0, 2) =~= u16_bytes(opcode_of(op) as int));
    assert(head.subrange(2, 4) =~= u16_bytes(ctx.flags as int));
    assert(head.subrange(4, 8) =~= u32_bytes(length as int));
    assert(head.subrange(8, 16) =~= u64_bytes(ctx.tenant_id.0));
    assert(head.subrange(16, 24) =~= u64_bytes(ctx.session_id.0));
    assert(head.subrange(24, 32) =~= u64_bytes(ctx.partition_id.0));
    assert(head.subrange(32, 40) =~= u64_bytes(ctx.causal_epoch));
    assert(head.subrange(40, 48) =~= u64_bytes(ctx.stream_seq));
    lemma_le_value_of_bytes(opcode_of(op) as nat, 2);
    lemma_le_value_of_bytes(ctx.flags as nat, 2);
    lemma_le_value_of_bytes((length % 0x1_0000_0000) as nat, 4);
    lemma_le_value_of_bytes(ctx.tenant_id.0 as nat, 8);
    lemma_le_value_of_bytes(ctx.session_id.0 as nat, 8);
    lemma_le_value_of_bytes(ctx.partition_id.0 as nat, 8);
    lemma_le_value_of_bytes(ctx.causal_epoch as nat, 8);
    lemma_le_value_of_bytes(ctx.stream_seq as nat, 8);
}

/// A preamble is accepted as it was written, with the supported version.
pub proof fn law_preamble_round_trip(
    path_id: PathId,
    session_id: SessionId,
    feature_flags: u64,
    flags: u16,
)
    ensures
        ({
            let s = preamble_bytes(path_id, session_id, feature_flags, flags);
            &&& s.len() == 32
            &&& s.take(4) == magic()
            &&& preamble_in(s) == (StreamPreamble {
                abi_version: SUPPORTED_VERSION,
                flags,
                feature_flags,
                path_id,
                session_id,
            })
        }),
{
    broadcast use lemma_le_bytes_len;

    let s = preamble_bytes(path_id, session_id, feature_flags, flags);
    lemma_byte_ranges();
    assert(s.take(4) =~= magic());
    assert(s.subrange(4, 6) =~= u16_bytes(SUPPORTED_VERSION as int));
    assert(s.subrange(6, 8) =~= u16_bytes(flags as int));
    assert(s.subrange(8, 16) =~= u64_bytes(feature_flags));
    assert(s.subrange(16, 24) =~= u64_bytes(path_id.0));
    assert(s.subrange(24, 32) =~= u64_bytes(session_id.0));
    lemma_le_value_of_bytes(SUPPORTED_VERSION as nat, 2);
    lemma_le_value_of_bytes(flags as nat, 2);
    lemma_le_value_of_bytes(feature_flags as nat, 8);
    lemma_le_value_of_bytes(path_id.0 as nat, 8);
    lemma_le_value_of_bytes(session_id.0 as nat, 8);
}

/// What an encoder writes, the decoder of the same session's stream accepts and hands to the
/// gate, as long as the sequence advances and the epoch does not fall; and the payload parses to
/// the instruction that was written.
pub proof fn law_encoded_record_is_accepted(d: DecoderView, op: IsaOpView, ctx: RecordContext)
    requires
        d.preamble matches Some(p) && p.session_id == ctx.session_id,
        op_fits(op),
        op_ordered(op),
        record_of(op, ctx).len() < 0x1_0000_0000,
        !seq_stalls(d, header_for(op, ctx)),
        !epoch_regresses(d, header_for(op, ctx)),
    ensures
        decoding(d, header_in(record_of(op, ctx).take(48))) == Ok::<RecordAction, IngressError>(
            RecordAction::RouteReady(header_for(op, ctx)),
        ),
        op_in(header_for(op, ctx).opcode, record_of(op, ctx).skip(48)) == Ok::<
            IsaOpView,
            DispatchError,
        >(wire_form(op)),
{
    law_record_round_trip(op, ctx);
    law_payload_round_trip(op);
    law_instructions_have_a_class(op);
}

} // verus!

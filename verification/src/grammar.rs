//! The wire grammar of record payloads.
//!
//! Integers are little-endian. A text is its length in bytes as a `u16`, followed by its UTF-8
//! form. There is no padding between fields.

use vstd::prelude::*;
use vstd::utf8::{decode_utf8, encode_utf8, valid_utf8};

use crate::attr::{ValView, canonical_float, with_attr};
use crate::bytes::{byte_signed, le_bytes, le_value, signed_byte, signed_word, word_signed};
use crate::dispatch::DispatchError;
use crate::idmap::sorted_keys;
use crate::isa::{
    CapabilityBits, CausalScope, CompilePolicy, ComputeRule, ConvergencePolicy, DepKindView,
    EdgeLabel, ExecMode, ExecutionPolicy, IsaOpView, LatticeClass, NodeKind, PartitionId,
    PayloadKind, PortKind, QueuePriority, RegionBoundaryView, RemoteDepView, RetryPolicy,
    RewriteBudget, RewriteStrategy, StabilityContract, StabilizationConfig, StabilizationDomain,
    T, Uid, ZeroKind,
};

verus! {

// ── Fields, read from the front of the bytes that are left ───────────────────

pub open spec fn truncated(needed: int, left: Seq<u8>) -> DispatchError {
    DispatchError::PayloadTruncated { needed: needed as usize, available: left.len() as usize }
}

pub open spec fn take_u8(s: Seq<u8>) -> Result<(u8, Seq<u8>), DispatchError> {
    if s.len() < 1 {
        Err(truncated(1, s))
    } else {
        Ok((s[0], s.skip(1)))
    }
}

pub open spec fn take_u16(s: Seq<u8>) -> Result<(u16, Seq<u8>), DispatchError> {
    if s.len() < 2 {
        Err(truncated(2, s))
    } else {
        Ok((le_value(s.take(2)) as u16, s.skip(2)))
    }
}

pub open spec fn take_u32(s: Seq<u8>) -> Result<(u32, Seq<u8>), DispatchError> {
    if s.len() < 4 {
        Err(truncated(4, s))
    } else {
        Ok((le_value(s.take(4)) as u32, s.skip(4)))
    }
}

pub open spec fn take_u64(s: Seq<u8>) -> Result<(u64, Seq<u8>), DispatchError> {
    if s.len() < 8 {
        Err(truncated(8, s))
    } else {
        Ok((le_value(s.take(8)) as u64, s.skip(8)))
    }
}

pub open spec fn take_text(s: Seq<u8>) -> Result<(Seq<char>, Seq<u8>), DispatchError> {
    match take_u16(s) {
        Err(e) => Err(e),
        Ok((n, s)) => if s.len() < n {
            Err(truncated(n as int, s))
        } else if !valid_utf8(s.take(n as int)) {
            Err(DispatchError::InvalidUtf8)
        } else {
            Ok((decode_utf8(s.take(n as int)), s.skip(n as int)))
        },
    }
}

pub open spec fn take_blob(s: Seq<u8>) -> Result<(Seq<u8>, Seq<u8>), DispatchError> {
    match take_u32(s) {
        Err(e) => Err(e),
        Ok((n, s)) => if s.len() < n {
            Err(truncated(n as int, s))
        } else {
            Ok((s.take(n as int), s.skip(n as int)))
        },
    }
}

/// A node identity travels as its low 64 bits.
pub open spec fn take_uid(s: Seq<u8>) -> Result<(Uid, Seq<u8>), DispatchError> {
    match take_u64(s) {
        Err(e) => Err(e),
        Ok((v, s)) => Ok((Uid(v as u128), s)),
    }
}

/// A partition identity travels as its low 64 bits.
pub open spec fn take_pid(s: Seq<u8>) -> Result<(PartitionId, Seq<u8>), DispatchError> {
    match take_u64(s) {
        Err(e) => Err(e),
        Ok((v, s)) => Ok((PartitionId(v as u128), s)),
    }
}

/// The ternary value that a signed byte stands for.
pub open spec fn ternary_of(v: i8) -> Result<T, DispatchError> {
    if v == -1 {
        Ok(T::Neg)
    } else if v == 0 {
        Ok(T::Zero)
    } else if v == 1 {
        Ok(T::Pos)
    } else {
        Err(DispatchError::InvalidTernaryValue(v))
    }
}

pub open spec fn take_ternary(s: Seq<u8>) -> Result<(T, Seq<u8>), DispatchError> {
    match take_u8(s) {
        Err(e) => Err(e),
        Ok((b, s)) => match ternary_of(byte_signed(b)) {
            Err(e) => Err(e),
            Ok(t) => Ok((t, s)),
        },
    }
}

/// `count` node identities, appended to those in `ids`.
pub open spec fn take_uids(ids: Seq<Uid>, count: nat, s: Seq<u8>) -> Result<
    (Seq<Uid>, Seq<u8>),
    DispatchError,
>
    decreases count,
{
    if count == 0 {
        Ok((ids, s))
    } else {
        match take_uid(s) {
            Err(e) => Err(e),
            Ok((id, s)) => take_uids(ids.push(id), (count - 1) as nat, s),
        }
    }
}

/// `count` clocks of partitions, set one after the other in `frontier`.
pub open spec fn take_frontier(
    frontier: Map<PartitionId, u64>,
    count: nat,
    s: Seq<u8>,
) -> Result<(Map<PartitionId, u64>, Seq<u8>), DispatchError>
    decreases count,
{
    if count == 0 {
        Ok((frontier, s))
    } else {
        match take_pid(s) {
            Err(e) => Err(e),
            Ok((pid, s)) => match take_u64(s) {
                Err(e) => Err(e),
                Ok((clock, s)) => take_frontier(frontier.insert(pid, clock), (count - 1) as nat, s),
            },
        }
    }
}

/// An attribute value: a tag byte and what belongs to it. A blob (tag 5) is read over and
/// refused; a node identity (tag 7) is kept as an integer.
pub open spec fn take_val(s: Seq<u8>) -> Result<(ValView, Seq<u8>), DispatchError> {
    match take_u8(s) {
        Err(e) => Err(e),
        Ok((tag, s)) => if tag == 0x01 {
            match take_u8(s) {
                Err(e) => Err(e),
                Ok((b, s)) => Ok((ValView::Bool(b != 0), s)),
            }
        } else if tag == 0x02 {
            match take_u64(s) {
                Err(e) => Err(e),
                Ok((w, s)) => Ok((ValView::Int(word_signed(w)), s)),
            }
        } else if tag == 0x03 {
            match take_u64(s) {
                Err(e) => Err(e),
                Ok((w, s)) => Ok((ValView::Float(canonical_float(w)), s)),
            }
        } else if tag == 0x04 {
            match take_text(s) {
                Err(e) => Err(e),
                Ok((t, s)) => Ok((ValView::Text(t), s)),
            }
        } else if tag == 0x05 {
            match take_blob(s) {
                Err(e) => Err(e),
                Ok(_) => Err(DispatchError::UnsupportedAttrTag(0x05)),
            }
        } else if tag == 0x06 {
            match take_ternary(s) {
                Err(e) => Err(e),
                Ok((t, s)) => Ok((ValView::Ternary(t), s)),
            }
        } else if tag == 0x07 {
            match take_u64(s) {
                Err(e) => Err(e),
                Ok((w, s)) => Ok((ValView::Int(word_signed(w)), s)),
            }
        } else {
            Err(DispatchError::UnsupportedAttrTag(tag))
        },
    }
}

/// `count` attributes, set one after the other in `attrs`.
pub open spec fn take_entries(
    attrs: Seq<(Seq<char>, ValView)>,
    count: nat,
    s: Seq<u8>,
) -> Result<(Seq<(Seq<char>, ValView)>, Seq<u8>), DispatchError>
    decreases count,
{
    if count == 0 {
        Ok((attrs, s))
    } else {
        match take_text(s) {
            Err(e) => Err(e),
            Ok((key, s)) => match take_val(s) {
                Err(e) => Err(e),
                Ok((val, s)) => take_entries(with_attr(attrs, key, val), (count - 1) as nat, s),
            },
        }
    }
}

pub open spec fn take_attrs(s: Seq<u8>) -> Result<
    (Seq<(Seq<char>, ValView)>, Seq<u8>),
    DispatchError,
> {
    match take_u16(s) {
        Err(e) => Err(e),
        Ok((count, s)) => take_entries(Seq::empty(), count as nat, s),
    }
}

// ── What a byte of an enumeration stands for ─────────────────────────────────

pub open spec fn node_kind_of(b: u8) -> Option<NodeKind> {
    if b == 0x00 {
        Some(NodeKind::Input)
    } else if b == 0x01 {
        Some(NodeKind::Computed(ComputeRule::Identity))
    } else if b == 0x02 {
        Some(NodeKind::Computed(ComputeRule::MvNeg))
    } else if b == 0x03 {
        Some(NodeKind::Computed(ComputeRule::MvAdd))
    } else if b == 0x04 {
        Some(NodeKind::Computed(ComputeRule::MvMul))
    } else if b == 0x05 {
        Some(NodeKind::Computed(ComputeRule::MvSub))
    } else if b == 0x06 {
        Some(NodeKind::Computed(ComputeRule::Merge))
    } else if b == 0x07 {
        Some(NodeKind::Computed(ComputeRule::MeetAll))
    } else if b == 0x08 {
        Some(NodeKind::Computed(ComputeRule::JoinAny))
    } else if b == 0x09 {
        Some(NodeKind::Computed(ComputeRule::BochvarFold))
    } else if b == 0x0A {
        Some(NodeKind::Computed(ComputeRule::PowerProduct))
    } else {
        None
    }
}

pub open spec fn port_kind_of(b: u8) -> Option<PortKind> {
    if b == 0x00 {
        Some(PortKind::Signal)
    } else if b == 0x01 {
        Some(PortKind::Effort)
    } else if b == 0x02 {
        Some(PortKind::Flow)
    } else if b == 0x03 {
        Some(PortKind::Bond)
    } else {
        None
    }
}

pub open spec fn zero_kind_of(b: u8) -> Option<ZeroKind> {
    if b == 0x00 {
        Some(ZeroKind::Conflict)
    } else if b == 0x01 {
        Some(ZeroKind::Incomplete)
    } else if b == 0x02 {
        Some(ZeroKind::Ambiguous)
    } else if b == 0x03 {
        Some(ZeroKind::Retracted)
    } else if b == 0x04 {
        Some(ZeroKind::BoundaryViolation)
    } else if b == 0x05 {
        Some(ZeroKind::VersionSkew)
    } else {
        None
    }
}

pub open spec fn exec_mode_of(b: u8) -> Option<ExecMode> {
    if b == 0x00 {
        Some(ExecMode::Eager)
    } else if b == 0x01 {
        Some(ExecMode::Lazy)
    } else if b == 0x02 {
        Some(ExecMode::Stabilizing)
    } else {
        None
    }
}

pub open spec fn strategy_of(b: u8) -> RewriteStrategy {
    if b == 0x00 {
        RewriteStrategy::FullL3
    } else {
        RewriteStrategy::Restricted(b as u64)
    }
}

pub open spec fn stabilization_domain_of(b: u8) -> StabilizationDomain {
    if b == 0x00 {
        StabilizationDomain::LocalOnly
    } else if b == 0x01 {
        StabilizationDomain::Federated
    } else {
        StabilizationDomain::Inherit
    }
}

pub open spec fn convergence_of(b: u8) -> ConvergencePolicy {
    if b == 0x00 {
        ConvergencePolicy::Canonical
    } else if b == 0x01 {
        ConvergencePolicy::Witness
    } else {
        ConvergencePolicy::BudgetExhausted
    }
}

pub open spec fn priority_of(b: u8) -> QueuePriority {
    if b == 0x01 {
        QueuePriority::High
    } else if b == 0x02 {
        QueuePriority::Low
    } else {
        QueuePriority::Normal
    }
}

pub open spec fn retry_of(b: u8) -> RetryPolicy {
    if b == 0x01 {
        RetryPolicy::Retry { max_attempts: 3 }
    } else {
        RetryPolicy::Fail
    }
}

pub open spec fn stability_of(b: u8) -> Option<StabilityContract> {
    if b == 0x00 {
        Some(StabilityContract::Pinned)
    } else if b == 0x01 {
        Some(StabilityContract::EpochTracked)
    } else {
        None
    }
}

pub open spec fn compile_of(b: u8) -> Option<CompilePolicy> {
    if b == 0x00 {
        Some(CompilePolicy::Eager)
    } else if b == 0x01 {
        Some(CompilePolicy::Lazy)
    } else if b == 0x02 {
        Some(CompilePolicy::Never)
    } else {
        None
    }
}

// ── Payloads ─────────────────────────────────────────────────────────────────

/// id, type name, rule byte, attributes.
pub open spec fn take_node_create(s: Seq<u8>) -> Result<(IsaOpView, Seq<u8>), DispatchError> {
    match take_uid(s) {
        Err(e) => Err(e),
        Ok((id, s)) => match take_text(s) {
            Err(e) => Err(e),
            Ok((typ, s)) => match take_u8(s) {
                Err(e) => Err(e),
                Ok((rule, s)) => match node_kind_of(rule) {
                    None => Err(DispatchError::UnknownNodeRule(rule)),
                    Some(rule) => match take_attrs(s) {
                        Err(e) => Err(e),
                        Ok((attrs, s)) => Ok((IsaOpView::NodeCreate { id, typ, rule, attrs }, s)),
                    },
                },
            },
        },
    }
}

/// payload kind byte, and the kind of zero where it says that there is one.
pub open spec fn take_payload_kind(s: Seq<u8>) -> Result<(PayloadKind, Seq<u8>), DispatchError> {
    match take_u8(s) {
        Err(e) => Err(e),
        Ok((kind, s)) => if kind == 0x00 {
            Ok((PayloadKind::Definite, s))
        } else if kind == 0x01 {
            match take_u8(s) {
                Err(e) => Err(e),
                Ok((zero, s)) => match zero_kind_of(zero) {
                    None => Err(DispatchError::UnknownZeroKind(zero)),
                    Some(z) => Ok((PayloadKind::TypedZero(z), s)),
                },
            }
        } else {
            Err(DispatchError::UnknownPayloadKind(kind))
        },
    }
}

/// source authority, emitted class, capability byte, causal scope.
pub open spec fn take_provenance(s: Seq<u8>) -> Result<
    ((PartitionId, LatticeClass, CapabilityBits, CausalScope), Seq<u8>),
    DispatchError,
> {
    match take_pid(s) {
        Err(e) => Err(e),
        Ok((authority, s)) => match take_u64(s) {
            Err(e) => Err(e),
            Ok((class, s)) => match take_u8(s) {
                Err(e) => Err(e),
                Ok((capability, s)) => match take_u64(s) {
                    Err(e) => Err(e),
                    Ok((scope_bits, s)) => Ok((
                            (
                            authority,
                            LatticeClass(class),
                            CapabilityBits(capability as u64),
                            CausalScope { scope_bits, root: PartitionId(0) },
                        ),
                            s,
                        )),
                },
            },
        },
    }
}

/// source partition, source node, source version, payload kind, causal frontier, provenance.
pub open spec fn take_remote_dep(port_kind: PortKind, s: Seq<u8>) -> Result<
    (RemoteDepView, Seq<u8>),
    DispatchError,
> {
    match take_pid(s) {
        Err(e) => Err(e),
        Ok((source_partition, s)) => match take_uid(s) {
            Err(e) => Err(e),
            Ok((source_uid, s)) => match take_u64(s) {
                Err(e) => Err(e),
                Ok((source_version, s)) => match take_payload_kind(s) {
                    Err(e) => Err(e),
                    Ok((payload_kind, s)) => match take_u16(s) {
                        Err(e) => Err(e),
                        Ok((count, s)) => match take_frontier(Map::empty(), count as nat, s) {
                            Err(e) => Err(e),
                            Ok((causal_frontier, s)) => match take_provenance(s) {
                                Err(e) => Err(e),
                                Ok(((source_authority, emitted_class, capability, causal_scope), s)) => Ok((RemoteDepView {
                                        source_partition,
                                        source_uid,
                                        source_version,
                                        port_kind,
                                        causal_frontier,
                                        payload_kind,
                                        source_authority,
                                        emitted_class,
                                        capability,
                                        causal_scope,
                                    }, s)),
                            },
                        },
                    },
                },
            },
        },
    }
}

/// The dependency after the bytes that local and remote ones share. A local one has a port
/// where the port's name is not empty.
pub open spec fn take_dep(dep: u8, port_kind: PortKind, name: Seq<char>, s: Seq<u8>) -> Result<
    (DepKindView, Seq<u8>),
    DispatchError,
> {
    if dep == 0x00 {
        if name.len() == 0 {
            Ok((DepKindView::Local(None), s))
        } else {
            Ok((DepKindView::Local(Some((name, port_kind))), s))
        }
    } else if dep == 0x01 {
        match take_remote_dep(port_kind, s) {
            Err(e) => Err(e),
            Ok((remote, s)) => Ok((DepKindView::Remote(remote), s)),
        }
    } else {
        Err(DispatchError::UnknownDepKind(dep))
    }
}

/// The type name of every edge that comes from the wire.
pub open spec fn edge_type() -> Seq<char> {
    seq!['d', 'e', 'p']
}

/// id, source, target, dependency byte, port kind byte, port name, dependency.
pub open spec fn take_edge_connect(s: Seq<u8>) -> Result<(IsaOpView, Seq<u8>), DispatchError> {
    match take_uid(s) {
        Err(e) => Err(e),
        Ok((id, s)) => match take_uid(s) {
            Err(e) => Err(e),
            Ok((src, s)) => match take_uid(s) {
                Err(e) => Err(e),
                Ok((tgt, s)) => match take_u8(s) {
                    Err(e) => Err(e),
                    Ok((dep, s)) => match take_u8(s) {
                        Err(e) => Err(e),
                        Ok((port, s)) => match take_text(s) {
                            Err(e) => Err(e),
                            Ok((name, s)) => match port_kind_of(port) {
                                None => Err(DispatchError::UnknownPortKind(port)),
                                Some(port_kind) => match take_dep(dep, port_kind, name, s) {
                                    Err(e) => Err(e),
                                    Ok((dep, s)) => Ok((IsaOpView::EdgeConnect {
                                            id,
                                            typ: edge_type(),
                                            src,
                                            tgt,
                                            dep,
                                        }, s)),
                                },
                            },
                        },
                    },
                },
            },
        },
    }
}

/// node, ternary value.
pub open spec fn take_set_value(s: Seq<u8>) -> Result<(IsaOpView, Seq<u8>), DispatchError> {
    match take_uid(s) {
        Err(e) => Err(e),
        Ok((node, s)) => match take_ternary(s) {
            Err(e) => Err(e),
            Ok((val, s)) => Ok((IsaOpView::SetValue { node, val }, s)),
        },
    }
}

/// source, subscriber.
pub open spec fn take_subscribe(s: Seq<u8>) -> Result<(IsaOpView, Seq<u8>), DispatchError> {
    match take_uid(s) {
        Err(e) => Err(e),
        Ok((source, s)) => match take_uid(s) {
            Err(e) => Err(e),
            Ok((subscriber, s)) => Ok((IsaOpView::Subscribe { source, subscriber }, s)),
        },
    }
}

/// node, mode byte.
pub open spec fn take_set_mode(s: Seq<u8>) -> Result<(IsaOpView, Seq<u8>), DispatchError> {
    match take_uid(s) {
        Err(e) => Err(e),
        Ok((node, s)) => match take_u8(s) {
            Err(e) => Err(e),
            Ok((b, s)) => match exec_mode_of(b) {
                None => Err(DispatchError::UnknownExecMode(b)),
                Some(mode) => Ok((IsaOpView::SetMode { node, mode }, s)),
            },
        },
    }
}

/// count as a `u32`, that many node identities. No identity stands for every node.
pub open spec fn take_stabilize(s: Seq<u8>) -> Result<(IsaOpView, Seq<u8>), DispatchError> {
    match take_u32(s) {
        Err(e) => Err(e),
        Ok((count, s)) => if count == 0 {
            Ok((IsaOpView::Stabilize { region: None }, s))
        } else {
            match take_uids(Seq::empty(), count as nat, s) {
                Err(e) => Err(e),
                Ok((ids, s)) => Ok((IsaOpView::Stabilize { region: Some(ids) }, s)),
            }
        },
    }
}

/// id, authority root, lattice class, causal scope. The causal domain's root is the partition.
pub open spec fn take_partition_create(s: Seq<u8>) -> Result<(IsaOpView, Seq<u8>), DispatchError> {
    match take_pid(s) {
        Err(e) => Err(e),
        Ok((id, s)) => match take_pid(s) {
            Err(e) => Err(e),
            Ok((authority_root, s)) => match take_u64(s) {
                Err(e) => Err(e),
                Ok((class, s)) => match take_u64(s) {
                    Err(e) => Err(e),
                    Ok((scope_bits, s)) => Ok((IsaOpView::PartitionCreate {
                            id,
                            authority_root,
                            lattice_class: LatticeClass(class),
                            causal_domain: CausalScope { scope_bits, root: id },
                        }, s)),
                },
            },
        },
    }
}

/// node, partition.
pub open spec fn take_partition_bind(s: Seq<u8>) -> Result<(IsaOpView, Seq<u8>), DispatchError> {
    match take_uid(s) {
        Err(e) => Err(e),
        Ok((node, s)) => match take_pid(s) {
            Err(e) => Err(e),
            Ok((partition, s)) => Ok((IsaOpView::PartitionBind { node, partition }, s)),
        },
    }
}

/// partition, lattice class, causal scope.
pub open spec fn take_set_partition_authority(s: Seq<u8>) -> Result<(IsaOpView, Seq<u8>), DispatchError> {
    match take_pid(s) {
        Err(e) => Err(e),
        Ok((partition, s)) => match take_u64(s) {
            Err(e) => Err(e),
            Ok((class, s)) => match take_u64(s) {
                Err(e) => Err(e),
                Ok((scope_bits, s)) => Ok((IsaOpView::SetPartitionAuthority {
                        partition,
                        lattice_class: LatticeClass(class),
                        causal_domain: CausalScope { scope_bits, root: PartitionId(0) },
                    }, s)),
            },
        },
    }
}

/// source, target, lattice class, capability byte, causal scope.
pub open spec fn take_set_edge_label(s: Seq<u8>) -> Result<(IsaOpView, Seq<u8>), DispatchError> {
    match take_uid(s) {
        Err(e) => Err(e),
        Ok((source, s)) => match take_uid(s) {
            Err(e) => Err(e),
            Ok((target, s)) => match take_u64(s) {
                Err(e) => Err(e),
                Ok((class, s)) => match take_u8(s) {
                    Err(e) => Err(e),
                    Ok((capability, s)) => match take_u64(s) {
                        Err(e) => Err(e),
                        Ok((scope_bits, s)) => Ok((IsaOpView::SetEdgeLabel {
                                source,
                                target,
                                label: EdgeLabel {
                                    capability: CapabilityBits(capability as u64),
                                    lattice_class: LatticeClass(class),
                                    causal_scope: CausalScope { scope_bits, root: PartitionId(0) },
                                },
                            }, s)),
                    },
                },
            },
        },
    }
}

/// node, strategy byte, domain byte, iteration limit as a `u32`, convergence byte.
pub open spec fn take_set_stabilization_config(s: Seq<u8>) -> Result<(IsaOpView, Seq<u8>), DispatchError> {
    match take_uid(s) {
        Err(e) => Err(e),
        Ok((node, s)) => match take_u8(s) {
            Err(e) => Err(e),
            Ok((strategy, s)) => match take_u8(s) {
                Err(e) => Err(e),
                Ok((domain, s)) => match take_u32(s) {
                    Err(e) => Err(e),
                    Ok((max_iterations, s)) => match take_u8(s) {
                        Err(e) => Err(e),
                        Ok((convergence, s)) => Ok((IsaOpView::SetStabilizationConfig {
                                node,
                                config: StabilizationConfig {
                                    strategy: strategy_of(strategy),
                                    domain: stabilization_domain_of(domain),
                                    budget: RewriteBudget {
                                        max_iterations: max_iterations as usize,
                                    },
                                    convergence_policy: convergence_of(convergence),
                                },
                            }, s)),
                    },
                },
            },
        },
    }
}

/// node, priority byte, retry byte.
pub open spec fn take_set_execution_policy(s: Seq<u8>) -> Result<(IsaOpView, Seq<u8>), DispatchError> {
    match take_uid(s) {
        Err(e) => Err(e),
        Ok((node, s)) => match take_u8(s) {
            Err(e) => Err(e),
            Ok((priority, s)) => match take_u8(s) {
                Err(e) => Err(e),
                Ok((retry, s)) => Ok((IsaOpView::SetExecutionPolicy {
                        node,
                        policy: ExecutionPolicy {
                            queue_priority: priority_of(priority),
                            retry_policy: retry_of(retry),
                        },
                    }, s)),
            },
        },
    }
}

/// A boundary tag, and a depth, a set of nodes or a partition.
pub open spec fn take_boundary(s: Seq<u8>) -> Result<(RegionBoundaryView, Seq<u8>), DispatchError> {
    match take_u8(s) {
        Err(e) => Err(e),
        Ok((tag, s)) => if tag == 0x00 {
            match take_u32(s) {
                Err(e) => Err(e),
                Ok((depth, s)) => Ok(
                    (RegionBoundaryView::DepClosure { max_depth: depth as usize }, s),
                ),
            }
        } else if tag == 0x01 {
            match take_u32(s) {
                Err(e) => Err(e),
                Ok((count, s)) => match take_uids(Seq::empty(), count as nat, s) {
                    Err(e) => Err(e),
                    Ok((ids, s)) => Ok((RegionBoundaryView::ExplicitSet(ids), s)),
                },
            }
        } else if tag == 0x02 {
            match take_pid(s) {
                Err(e) => Err(e),
                Ok((pid, s)) => Ok((RegionBoundaryView::PartitionScoped(pid), s)),
            }
        } else {
            Err(DispatchError::UnknownRegionBoundaryTag(tag))
        },
    }
}

/// root, boundary, stability byte, compile byte.
pub open spec fn take_region_declare(s: Seq<u8>) -> Result<(IsaOpView, Seq<u8>), DispatchError> {
    match take_uid(s) {
        Err(e) => Err(e),
        Ok((root, s)) => match take_boundary(s) {
            Err(e) => Err(e),
            Ok((boundary, s)) => match take_u8(s) {
                Err(e) => Err(e),
                Ok((sb, s)) => match stability_of(sb) {
                    None => Err(DispatchError::UnknownStabilityContract(sb)),
                    Some(stability) => match take_u8(s) {
                        Err(e) => Err(e),
                        Ok((cb, s)) => match compile_of(cb) {
                            None => Err(DispatchError::UnknownCompilePolicy(cb)),
                            Some(compile) => Ok((IsaOpView::RegionDeclare { root, boundary, stability, compile }, s)),
                        },
                    },
                },
            },
        },
    }
}

/// The instruction that is written under an opcode.
pub open spec fn take_op(opcode: u16, s: Seq<u8>) -> Result<(IsaOpView, Seq<u8>), DispatchError> {
    if opcode == 0x0001 {
        take_node_create(s)
    } else if opcode == 0x0002 {
        take_edge_connect(s)
    } else if opcode == 0x0003 {
        take_set_value(s)
    } else if opcode == 0x0004 {
        match take_uid(s) {
            Err(e) => Err(e),
            Ok((node, s)) => Ok((IsaOpView::Propagate { node }, s)),
        }
    } else if opcode == 0x0005 {
        take_subscribe(s)
    } else if opcode == 0x0006 {
        match take_uid(s) {
            Err(e) => Err(e),
            Ok((id, s)) => Ok((IsaOpView::DelNode { id }, s)),
        }
    } else if opcode == 0x0007 {
        match take_uid(s) {
            Err(e) => Err(e),
            Ok((id, s)) => Ok((IsaOpView::DelEdge { id }, s)),
        }
    } else if opcode == 0x0008 {
        match take_uid(s) {
            Err(e) => Err(e),
            Ok((node, s)) => Ok((IsaOpView::Demand { node }, s)),
        }
    } else if opcode == 0x0009 {
        take_set_mode(s)
    } else if opcode == 0x000A {
        match take_uid(s) {
            Err(e) => Err(e),
            Ok((node, s)) => Ok((IsaOpView::Reflect { node }, s)),
        }
    } else if opcode == 0x000B {
        take_stabilize(s)
    } else if opcode == 0x000C {
        take_partition_create(s)
    } else if opcode == 0x000D {
        take_partition_bind(s)
    } else if opcode == 0x000E {
        take_set_partition_authority(s)
    } else if opcode == 0x000F {
        take_set_edge_label(s)
    } else if opcode == 0x0010 {
        take_set_stabilization_config(s)
    } else if opcode == 0x0011 {
        take_set_execution_policy(s)
    } else if opcode == 0x0012 {
        take_region_declare(s)
    } else {
        Err(DispatchError::UnknownOpcode(opcode))
    }
}

/// What was read, without the bytes behind it.
pub open spec fn without_rest<A>(r: Result<(A, Seq<u8>), DispatchError>) -> Result<A, DispatchError> {
    match r {
        Ok((v, _)) => Ok(v),
        Err(e) => Err(e),
    }
}

/// The instruction that a payload holds under an opcode. Bytes after it are ignored.
pub open spec fn op_in(opcode: u16, s: Seq<u8>) -> Result<IsaOpView, DispatchError> {
    without_rest(take_op(opcode, s))
}

// ── Fields, as they are written ──────────────────────────────────────────────

/// The low 64 bits of an identity.
pub open spec fn wire_id(id: u128) -> u64 {
    (id % 0x1_0000_0000_0000_0000) as u64
}

pub open spec fn u16_bytes(v: int) -> Seq<u8> {
    le_bytes((v % 0x1_0000) as nat, 2)
}

pub open spec fn u32_bytes(v: int) -> Seq<u8> {
    le_bytes((v % 0x1_0000_0000) as nat, 4)
}

pub open spec fn u64_bytes(v: u64) -> Seq<u8> {
    le_bytes(v as nat, 8)
}

pub open spec fn uid_bytes(id: Uid) -> Seq<u8> {
    u64_bytes(wire_id(id.0))
}

pub open spec fn pid_bytes(id: PartitionId) -> Seq<u8> {
    u64_bytes(wire_id(id.0))
}

pub open spec fn text_bytes(text: Seq<char>) -> Seq<u8> {
    u16_bytes(encode_utf8(text).len() as int) + encode_utf8(text)
}

pub open spec fn ternary_byte(t: T) -> i8 {
    match t {
        T::Neg => -1i8,
        T::Zero => 0,
        T::Pos => 1,
    }
}

pub open spec fn uids_bytes(ids: Seq<Uid>) -> Seq<u8>
    decreases ids.len(),
{
    if ids.len() == 0 {
        Seq::empty()
    } else {
        uid_bytes(ids[0]) + uids_bytes(ids.drop_first())
    }
}

pub open spec fn val_bytes(val: ValView) -> Seq<u8> {
    match val {
        ValView::Bool(b) => seq![0x01u8, if b { 1u8 } else { 0u8 }],
        ValView::Int(i) => seq![0x02u8] + u64_bytes(signed_word(i)),
        ValView::Float(bits) => seq![0x03u8] + u64_bytes(canonical_float(bits)),
        ValView::Text(t) => seq![0x04u8] + text_bytes(t),
        ValView::Ternary(t) => seq![0x06u8, signed_byte(ternary_byte(t))],
    }
}

pub open spec fn entries_bytes(entries: Seq<(Seq<char>, ValView)>) -> Seq<u8>
    decreases entries.len(),
{
    if entries.len() == 0 {
        Seq::empty()
    } else {
        text_bytes(entries[0].0) + (val_bytes(entries[0].1) + entries_bytes(entries.drop_first()))
    }
}

pub open spec fn attrs_bytes(attrs: Seq<(Seq<char>, ValView)>) -> Seq<u8> {
    u16_bytes(attrs.len() as int) + entries_bytes(attrs)
}

pub open spec fn node_kind_byte(kind: NodeKind) -> u8 {
    match kind {
        NodeKind::Input => 0x00,
        NodeKind::Computed(ComputeRule::Identity) => 0x01,
        NodeKind::Computed(ComputeRule::MvNeg) => 0x02,
        NodeKind::Computed(ComputeRule::MvAdd) => 0x03,
        NodeKind::Computed(ComputeRule::MvMul) => 0x04,
        NodeKind::Computed(ComputeRule::MvSub) => 0x05,
        NodeKind::Computed(ComputeRule::Merge) => 0x06,
        NodeKind::Computed(ComputeRule::MeetAll) => 0x07,
        NodeKind::Computed(ComputeRule::JoinAny) => 0x08,
        NodeKind::Computed(ComputeRule::BochvarFold) => 0x09,
        NodeKind::Computed(ComputeRule::PowerProduct) => 0x0A,
    }
}

pub open spec fn port_kind_byte(kind: PortKind) -> u8 {
    match kind {
        PortKind::Signal => 0x00,
        PortKind::Effort => 0x01,
        PortKind::Flow => 0x02,
        PortKind::Bond => 0x03,
    }
}

pub open spec fn exec_mode_byte(mode: ExecMode) -> u8 {
    match mode {
        ExecMode::Eager => 0x00,
        ExecMode::Lazy => 0x01,
        ExecMode::Stabilizing => 0x02,
    }
}

pub open spec fn strategy_byte(strategy: RewriteStrategy) -> u8 {
    match strategy {
        RewriteStrategy::FullL3 => 0x00,
        RewriteStrategy::Restricted(v) => (v % 256) as u8,
    }
}

pub open spec fn stabilization_domain_byte(domain: StabilizationDomain) -> u8 {
    match domain {
        StabilizationDomain::LocalOnly => 0x00,
        StabilizationDomain::Federated => 0x01,
        StabilizationDomain::Inherit => 0x02,
    }
}

pub open spec fn convergence_byte(policy: ConvergencePolicy) -> u8 {
    match policy {
        ConvergencePolicy::Canonical => 0x00,
        ConvergencePolicy::Witness => 0x01,
        ConvergencePolicy::BudgetExhausted => 0x02,
    }
}

pub open spec fn priority_byte(priority: QueuePriority) -> u8 {
    match priority {
        QueuePriority::Normal => 0x00,
        QueuePriority::High => 0x01,
        QueuePriority::Low => 0x02,
    }
}

pub open spec fn retry_byte(policy: RetryPolicy) -> u8 {
    match policy {
        RetryPolicy::Fail => 0x00,
        RetryPolicy::Retry { .. } => 0x01,
    }
}

pub open spec fn stability_byte(stability: StabilityContract) -> u8 {
    match stability {
        StabilityContract::Pinned => 0x00,
        StabilityContract::EpochTracked => 0x01,
    }
}

pub open spec fn compile_byte(compile: CompilePolicy) -> u8 {
    match compile {
        CompilePolicy::Eager => 0x00,
        CompilePolicy::Lazy => 0x01,
        CompilePolicy::Never => 0x02,
    }
}

pub open spec fn zero_kind_byte(kind: ZeroKind) -> u8 {
    match kind {
        ZeroKind::Conflict => 0x00,
        ZeroKind::Incomplete => 0x01,
        ZeroKind::Ambiguous => 0x02,
        ZeroKind::Retracted => 0x03,
        ZeroKind::BoundaryViolation => 0x04,
        ZeroKind::VersionSkew => 0x05,
    }
}

pub open spec fn payload_kind_bytes(kind: PayloadKind) -> Seq<u8> {
    match kind {
        PayloadKind::Definite => seq![0x00u8],
        PayloadKind::TypedZero(zero) => seq![0x01u8, zero_kind_byte(zero)],
    }
}

/// The clocks of `keys`, each behind its partition.
pub open spec fn clocks_bytes(frontier: Map<PartitionId, u64>, keys: Seq<PartitionId>) -> Seq<u8>
    decreases keys.len(),
{
    if keys.len() == 0 {
        Seq::empty()
    } else {
        pid_bytes(keys[0]) + (u64_bytes(frontier[keys[0]]) + clocks_bytes(
            frontier,
            keys.drop_first(),
        ))
    }
}

/// The number of clocks, and the clocks in ascending order of their partitions.
pub open spec fn frontier_bytes(frontier: Map<PartitionId, u64>) -> Seq<u8> {
    u16_bytes(frontier.dom().len() as int) + clocks_bytes(frontier, sorted_keys(frontier.dom()))
}

pub open spec fn remote_bytes(remote: RemoteDepView) -> Seq<u8> {
    pid_bytes(remote.source_partition) + (uid_bytes(remote.source_uid) + (u64_bytes(
        remote.source_version,
    ) + (payload_kind_bytes(remote.payload_kind) + (frontier_bytes(remote.causal_frontier) + (
    pid_bytes(remote.source_authority) + (u64_bytes(remote.emitted_class.0) + (seq![
        (remote.capability.0 % 256) as u8,
    ] + u64_bytes(remote.causal_scope.scope_bits))))))))
}

/// A remote dependency is framed like a local one without a port's name.
pub open spec fn dep_bytes(dep: DepKindView) -> Seq<u8> {
    match dep {
        DepKindView::Local(None) => seq![0x00u8, 0x00u8] + text_bytes(Seq::empty()),
        DepKindView::Local(Some((name, kind))) => seq![0x00u8, port_kind_byte(kind)] + text_bytes(
            name,
        ),
        DepKindView::Remote(remote) => seq![0x01u8, port_kind_byte(remote.port_kind)] + (text_bytes(
            Seq::empty(),
        ) + remote_bytes(remote)),
    }
}

pub open spec fn boundary_bytes(boundary: RegionBoundaryView) -> Seq<u8> {
    match boundary {
        RegionBoundaryView::DepClosure { max_depth } => seq![0x00u8] + u32_bytes(max_depth as int),
        RegionBoundaryView::ExplicitSet(ids) => seq![0x01u8] + (u32_bytes(ids.len() as int)
            + uids_bytes(ids)),
        RegionBoundaryView::PartitionScoped(pid) => seq![0x02u8] + pid_bytes(pid),
    }
}

/// The opcode under which an instruction travels.
pub open spec fn opcode_of(op: IsaOpView) -> u16 {
    match op {
        IsaOpView::NodeCreate { .. } => 0x0001,
        IsaOpView::EdgeConnect { .. } => 0x0002,
        IsaOpView::SetValue { .. } => 0x0003,
        IsaOpView::Propagate { .. } => 0x0004,
        IsaOpView::Subscribe { .. } => 0x0005,
        IsaOpView::DelNode { .. } => 0x0006,
        IsaOpView::DelEdge { .. } => 0x0007,
        IsaOpView::Demand { .. } => 0x0008,
        IsaOpView::SetMode { .. } => 0x0009,
        IsaOpView::Reflect { .. } => 0x000A,
        IsaOpView::Stabilize { .. } => 0x000B,
        IsaOpView::PartitionCreate { .. } => 0x000C,
        IsaOpView::PartitionBind { .. } => 0x000D,
        IsaOpView::SetPartitionAuthority { .. } => 0x000E,
        IsaOpView::SetEdgeLabel { .. } => 0x000F,
        IsaOpView::SetStabilizationConfig { .. } => 0x0010,
        IsaOpView::SetExecutionPolicy { .. } => 0x0011,
        IsaOpView::RegionDeclare { .. } => 0x0012,
    }
}

/// The payload that an instruction travels as.
pub open spec fn payload_of(op: IsaOpView) -> Seq<u8> {
    match op {
        IsaOpView::NodeCreate { id, typ, rule, attrs } => uid_bytes(id) + (text_bytes(typ) + (seq![
            node_kind_byte(rule),
        ] + attrs_bytes(attrs))),
        IsaOpView::EdgeConnect { id, src, tgt, dep, .. } => uid_bytes(id) + (uid_bytes(src) + (
        uid_bytes(tgt) + dep_bytes(dep))),
        IsaOpView::SetValue { node, val } => uid_bytes(node) + seq![
            signed_byte(ternary_byte(val)),
        ],
        IsaOpView::Propagate { node } => uid_bytes(node),
        IsaOpView::Subscribe { source, subscriber } => uid_bytes(source) + uid_bytes(subscriber),
        IsaOpView::DelNode { id } => uid_bytes(id),
        IsaOpView::DelEdge { id } => uid_bytes(id),
        IsaOpView::Demand { node } => uid_bytes(node),
        IsaOpView::SetMode { node, mode } => uid_bytes(node) + seq![exec_mode_byte(mode)],
        IsaOpView::Reflect { node } => uid_bytes(node),
        IsaOpView::Stabilize { region: None } => u32_bytes(0),
        IsaOpView::Stabilize { region: Some(ids) } => u32_bytes(ids.len() as int) + uids_bytes(ids),
        IsaOpView::PartitionCreate { id, authority_root, lattice_class, causal_domain } => pid_bytes(
            id,
        ) + (pid_bytes(authority_root) + (u64_bytes(lattice_class.0) + u64_bytes(
            causal_domain.scope_bits,
        ))),
        IsaOpView::PartitionBind { node, partition } => uid_bytes(node) + pid_bytes(partition),
        IsaOpView::SetPartitionAuthority { partition, lattice_class, causal_domain } => pid_bytes(
            partition,
        ) + (u64_bytes(lattice_class.0) + u64_bytes(causal_domain.scope_bits)),
        IsaOpView::SetEdgeLabel { source, target, label } => uid_bytes(source) + (uid_bytes(target)
            + (u64_bytes(label.lattice_class.0) + (seq![(label.capability.0 % 256) as u8]
            + u64_bytes(label.causal_scope.scope_bits)))),
        IsaOpView::SetStabilizationConfig { node, config } => uid_bytes(node) + (seq![
            strategy_byte(config.strategy),
            stabilization_domain_byte(config.domain),
        ] + (u32_bytes(config.budget.max_iterations as int) + seq![
            convergence_byte(config.convergence_policy),
        ])),
        IsaOpView::SetExecutionPolicy { node, policy } => uid_bytes(node) + seq![
            priority_byte(policy.queue_priority),
            retry_byte(policy.retry_policy),
        ],
        IsaOpView::RegionDeclare { root, boundary, stability, compile } => uid_bytes(root) + (
        boundary_bytes(boundary) + seq![stability_byte(stability), compile_byte(compile)]),
    }
}

} // verus!

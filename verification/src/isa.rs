//! The instruction set that records carry, and the values that its instructions are made of.

use vstd::prelude::*;

use crate::attr::{Attrs, ValView};
use crate::idmap::{IdMap, Key, lemma_sorted_keys_exist, sorted_keys};

verus! {

/// Identity of a node or an edge inside the engine.
#[derive(Clone, Copy, Debug, PartialEq, Eq, Structural, Hash)]
pub struct Uid(pub u128);

impl Uid {
    pub fn from_u128(id: u128) -> (uid: Uid)
        ensures
            uid == Uid(id),
    {
        Uid(id)
    }

    pub fn as_u128(self) -> (id: u128)
        ensures
            id == self.0,
    {
        self.0
    }
}

/// Identity of a partition inside the engine.
#[derive(Clone, Copy, Debug, PartialEq, Eq, Structural, Hash)]
pub struct PartitionId(pub u128);

impl PartitionId {
    /// The identity that belongs to no partition.
    #[verifier::allow_in_spec]
    pub fn nil() -> PartitionId
        returns
            PartitionId(0),
    {
        PartitionId(0)
    }

    pub fn from_u128(id: u128) -> (pid: PartitionId)
        ensures
            pid == PartitionId(id),
    {
        PartitionId(id)
    }

    pub fn as_u128(self) -> (id: u128)
        ensures
            id == self.0,
    {
        self.0
    }
}

impl Key for PartitionId {
    open spec fn code(self) -> u128 {
        self.0
    }

    fn to_code(self) -> (code: u128) {
        self.0
    }

    fn from_code(code: u128) -> (key: Option<Self>) {
        Some(PartitionId(code))
    }

    proof fn code_injective(a: Self, b: Self) {
    }
}

/// A value of the three-valued logic.
#[derive(Clone, Copy, Debug, PartialEq, Eq, Structural, Hash)]
pub enum T {
    Neg,
    Zero,
    Pos,
}

/// A class of the information-flow lattice: a set of compartments.
#[derive(Clone, Copy, Debug, PartialEq, Eq, Structural, Hash)]
pub struct LatticeClass(pub u64);

impl LatticeClass {
    /// The class that may flow everywhere.
    #[verifier::allow_in_spec]
    pub fn bottom() -> LatticeClass
        returns
            LatticeClass(0),
    {
        LatticeClass(0)
    }

    /// The class that everything may flow to.
    #[verifier::allow_in_spec]
    pub fn top() -> LatticeClass
        returns
            LatticeClass(u64::MAX),
    {
        LatticeClass(u64::MAX)
    }

    /// Information of this class may flow to `target`: every compartment of this class is one
    /// of `target`.
    #[verifier::allow_in_spec]
    pub fn flows_to(self, target: LatticeClass) -> bool
        returns
            self.0 & target.0 == self.0,
    {
        self.0 & target.0 == self.0
    }
}

/// A set of capabilities.
#[derive(Clone, Copy, Debug, PartialEq, Eq, Structural, Hash)]
pub struct CapabilityBits(pub u64);

impl CapabilityBits {
    #[verifier::allow_in_spec]
    pub fn none() -> CapabilityBits
        returns
            CapabilityBits(0),
    {
        CapabilityBits(0)
    }

    #[verifier::allow_in_spec]
    pub fn read() -> CapabilityBits
        returns
            CapabilityBits(0x01),
    {
        CapabilityBits(0x01)
    }

    #[verifier::allow_in_spec]
    pub fn propagate() -> CapabilityBits
        returns
            CapabilityBits(0x02),
    {
        CapabilityBits(0x02)
    }

    #[verifier::allow_in_spec]
    pub fn stabilize() -> CapabilityBits
        returns
            CapabilityBits(0x04),
    {
        CapabilityBits(0x04)
    }

    #[verifier::allow_in_spec]
    pub fn all() -> CapabilityBits
        returns
            CapabilityBits(u64::MAX),
    {
        CapabilityBits(u64::MAX)
    }

    /// The capabilities in either set.
    #[verifier::allow_in_spec]
    pub fn union(self, other: CapabilityBits) -> CapabilityBits
        returns
            CapabilityBits(self.0 | other.0),
    {
        CapabilityBits(self.0 | other.0)
    }

    /// The capabilities in both sets.
    #[verifier::allow_in_spec]
    pub fn intersect(self, other: CapabilityBits) -> CapabilityBits
        returns
            CapabilityBits(self.0 & other.0),
    {
        CapabilityBits(self.0 & other.0)
    }

    /// Every capability of `required` is in this set.
    #[verifier::allow_in_spec]
    pub fn allows(self, required: CapabilityBits) -> bool
        returns
            self.0 & required.0 == required.0,
    {
        self.0 & required.0 == required.0
    }
}

/// A causal domain: which scopes it covers, and the partition at its root.
#[derive(Clone, Copy, Debug, PartialEq, Eq, Structural, Hash)]
pub struct CausalScope {
    pub scope_bits: u64,
    pub root: PartitionId,
}

/// How the engine treats authority claims.
#[derive(Clone, Copy, Debug, PartialEq, Eq, Structural, Hash)]
pub enum AuthorityMode {
    /// Claims are taken at the session's word.
    Advisory,
    /// Claims are backed by a verified credential.
    Asserted,
}

#[derive(Clone, Copy, Debug, PartialEq, Eq, Structural, Hash)]
pub enum ComputeRule {
    Identity,
    MvNeg,
    MvAdd,
    MvMul,
    MvSub,
    Merge,
    MeetAll,
    JoinAny,
    BochvarFold,
    PowerProduct,
}

#[derive(Clone, Copy, Debug, PartialEq, Eq, Structural, Hash)]
pub enum NodeKind {
    Input,
    Computed(ComputeRule),
}

#[derive(Clone, Copy, Debug, PartialEq, Eq, Structural, Hash)]
pub enum PortKind {
    Signal,
    Effort,
    Flow,
    Bond,
}

#[derive(Clone, Debug, PartialEq, Eq)]
pub struct Port {
    pub name: String,
    pub kind: PortKind,
}

#[derive(Clone, Copy, Debug, PartialEq, Eq, Structural, Hash)]
pub enum ZeroKind {
    Conflict,
    Incomplete,
    Ambiguous,
    Retracted,
    BoundaryViolation,
    VersionSkew,
}

#[derive(Clone, Copy, Debug, PartialEq, Eq, Structural, Hash)]
pub enum PayloadKind {
    Definite,
    TypedZero(ZeroKind),
}

/// A clock per partition.
#[derive(Clone, Debug)]
pub struct VectorClock {
    clocks: IdMap<PartitionId, u64>,
}

impl View for VectorClock {
    type V = Map<PartitionId, u64>;

    closed spec fn view(&self) -> Map<PartitionId, u64> {
        self.clocks@
    }
}

impl VectorClock {
    pub fn new() -> (clock: VectorClock)
        ensures
            clock@ == Map::<PartitionId, u64>::empty(),
    {
        VectorClock { clocks: IdMap::new() }
    }

    pub fn set(&mut self, partition: PartitionId, clock: u64)
        ensures
            final(self)@ == old(self)@.insert(partition, clock),
    {
        let _ = self.clocks.insert(partition, clock);
    }

    /// The partitions that have a clock, in ascending order.
    pub fn partitions(&self) -> (partitions: Vec<PartitionId>)
        ensures
            partitions@ == sorted_keys(self@.dom()),
            partitions@.to_set() == self@.dom(),
            partitions@.len() == self@.dom().len(),
            self@.dom().finite(),
    {
        let partitions = self.clocks.keys();
        proof {
            vstd::seq_lib::seq_to_set_is_finite(partitions@);
            lemma_sorted_keys_exist(self@.dom());
        }
        partitions
    }

    /// The clock of `partition`, 0 where none was set.
    pub fn get(&self, partition: PartitionId) -> (clock: u64)
        ensures
            clock == (if self@.contains_key(partition) { self@[partition] } else { 0 }),
    {
        match self.clocks.get(&partition) {
            Some(clock) => *clock,
            None => 0,
        }
    }
}

/// A dependency on a node of another partition, with its causal provenance.
#[derive(Clone, Debug)]
pub struct RemoteDep {
    pub source_partition: PartitionId,
    pub source_uid: Uid,
    pub source_version: u64,
    pub port_kind: PortKind,
    pub causal_frontier: VectorClock,
    pub payload_kind: PayloadKind,
    pub source_authority: PartitionId,
    pub emitted_class: LatticeClass,
    pub capability: CapabilityBits,
    pub causal_scope: CausalScope,
}

impl RemoteDep {
    /// The dependency carries a typed zero in place of a definite value.
    pub fn is_zero(&self) -> (zero: bool)
        ensures
            zero == (self.payload_kind is TypedZero),
    {
        matches!(self.payload_kind, PayloadKind::TypedZero(_))
    }

    /// The kind of zero that the dependency carries.
    pub fn zero_kind(&self) -> (kind: Option<ZeroKind>)
        ensures
            kind == (match self.payload_kind {
                PayloadKind::TypedZero(k) => Some(k),
                PayloadKind::Definite => None,
            }),
    {
        match self.payload_kind {
            PayloadKind::TypedZero(k) => Some(k),
            PayloadKind::Definite => None,
        }
    }
}

#[derive(Clone, Debug)]
pub enum DepKind {
    Local(Option<Port>),
    Remote(RemoteDep),
}

#[derive(Clone, Copy, Debug, PartialEq, Eq, Structural, Hash)]
pub enum ExecMode {
    Eager,
    Lazy,
    Stabilizing,
}

/// What may cross an edge. An edge made from a record projects every field.
#[derive(Clone, Copy, Debug, PartialEq, Eq, Structural, Hash)]
pub struct EdgeLabel {
    pub capability: CapabilityBits,
    pub lattice_class: LatticeClass,
    pub causal_scope: CausalScope,
}

#[derive(Clone, Copy, Debug, PartialEq, Eq, Structural, Hash)]
pub enum RewriteStrategy {
    FullL3,
    Restricted(u64),
}

#[derive(Clone, Copy, Debug, PartialEq, Eq, Structural, Hash)]
pub enum StabilizationDomain {
    LocalOnly,
    Federated,
    Inherit,
}

#[derive(Clone, Copy, Debug, PartialEq, Eq, Structural, Hash)]
pub struct RewriteBudget {
    pub max_iterations: usize,
}

#[derive(Clone, Copy, Debug, PartialEq, Eq, Structural, Hash)]
pub enum ConvergencePolicy {
    Canonical,
    Witness,
    BudgetExhausted,
}

#[derive(Clone, Copy, Debug, PartialEq, Eq, Structural, Hash)]
pub struct StabilizationConfig {
    pub strategy: RewriteStrategy,
    pub domain: StabilizationDomain,
    pub budget: RewriteBudget,
    pub convergence_policy: ConvergencePolicy,
}

#[derive(Clone, Copy, Debug, PartialEq, Eq, Structural, Hash)]
pub enum QueuePriority {
    Normal,
    High,
    Low,
}

#[derive(Clone, Copy, Debug, PartialEq, Eq, Structural, Hash)]
pub enum RetryPolicy {
    Fail,
    Retry { max_attempts: u32 },
}

#[derive(Clone, Copy, Debug, PartialEq, Eq, Structural, Hash)]
pub struct ExecutionPolicy {
    pub queue_priority: QueuePriority,
    pub retry_policy: RetryPolicy,
}

#[derive(Clone, Debug, PartialEq, Eq)]
pub enum RegionBoundary {
    DepClosure { max_depth: usize },
    ExplicitSet(Vec<Uid>),
    PartitionScoped(PartitionId),
}

#[derive(Clone, Copy, Debug, PartialEq, Eq, Structural, Hash)]
pub enum StabilityContract {
    Pinned,
    EpochTracked,
}

#[derive(Clone, Copy, Debug, PartialEq, Eq, Structural, Hash)]
pub enum CompilePolicy {
    Eager,
    Lazy,
    Never,
}

/// An instruction to an engine shard.
#[derive(Clone, Debug)]
#[allow(inconsistent_fields)]
pub enum IsaOp {
    NodeCreate { id: Uid, typ: String, rule: NodeKind, attrs: Attrs },
    EdgeConnect { id: Uid, typ: String, src: Uid, tgt: Uid, dep: DepKind },
    SetValue { node: Uid, val: T },
    Propagate { node: Uid },
    Subscribe { source: Uid, subscriber: Uid },
    DelNode { id: Uid },
    DelEdge { id: Uid },
    Demand { node: Uid },
    SetMode { node: Uid, mode: ExecMode },
    Reflect { node: Uid },
    Stabilize { region: Option<Vec<Uid>> },
    PartitionCreate {
        id: PartitionId,
        authority_root: PartitionId,
        lattice_class: LatticeClass,
        causal_domain: CausalScope,
    },
    PartitionBind { node: Uid, partition: PartitionId },
    SetPartitionAuthority {
        partition: PartitionId,
        lattice_class: LatticeClass,
        causal_domain: CausalScope,
    },
    SetEdgeLabel { source: Uid, target: Uid, label: EdgeLabel },
    SetStabilizationConfig { node: Uid, config: StabilizationConfig },
    SetExecutionPolicy { node: Uid, policy: ExecutionPolicy },
    RegionDeclare {
        root: Uid,
        boundary: RegionBoundary,
        stability: StabilityContract,
        compile: CompilePolicy,
    },
}

/// The mathematical content of a [`RemoteDep`].
pub struct RemoteDepView {
    pub source_partition: PartitionId,
    pub source_uid: Uid,
    pub source_version: u64,
    pub port_kind: PortKind,
    pub causal_frontier: Map<PartitionId, u64>,
    pub payload_kind: PayloadKind,
    pub source_authority: PartitionId,
    pub emitted_class: LatticeClass,
    pub capability: CapabilityBits,
    pub causal_scope: CausalScope,
}

/// The mathematical content of a [`DepKind`]: a port is its name and its kind.
pub enum DepKindView {
    Local(Option<(Seq<char>, PortKind)>),
    Remote(RemoteDepView),
}

/// The mathematical content of a [`RegionBoundary`].
pub enum RegionBoundaryView {
    DepClosure { max_depth: usize },
    ExplicitSet(Seq<Uid>),
    PartitionScoped(PartitionId),
}

/// The mathematical content of an [`IsaOp`].
#[allow(inconsistent_fields)]
pub enum IsaOpView {
    NodeCreate { id: Uid, typ: Seq<char>, rule: NodeKind, attrs: Seq<(Seq<char>, ValView)> },
    EdgeConnect { id: Uid, typ: Seq<char>, src: Uid, tgt: Uid, dep: DepKindView },
    SetValue { node: Uid, val: T },
    Propagate { node: Uid },
    Subscribe { source: Uid, subscriber: Uid },
    DelNode { id: Uid },
    DelEdge { id: Uid },
    Demand { node: Uid },
    SetMode { node: Uid, mode: ExecMode },
    Reflect { node: Uid },
    Stabilize { region: Option<Seq<Uid>> },
    PartitionCreate {
        id: PartitionId,
        authority_root: PartitionId,
        lattice_class: LatticeClass,
        causal_domain: CausalScope,
    },
    PartitionBind { node: Uid, partition: PartitionId },
    SetPartitionAuthority {
        partition: PartitionId,
        lattice_class: LatticeClass,
        causal_domain: CausalScope,
    },
    SetEdgeLabel { source: Uid, target: Uid, label: EdgeLabel },
    SetStabilizationConfig { node: Uid, config: StabilizationConfig },
    SetExecutionPolicy { node: Uid, policy: ExecutionPolicy },
    RegionDeclare {
        root: Uid,
        boundary: RegionBoundaryView,
        stability: StabilityContract,
        compile: CompilePolicy,
    },
}

impl View for RemoteDep {
    type V = RemoteDepView;

    open spec fn view(&self) -> RemoteDepView {
        RemoteDepView {
            source_partition: self.source_partition,
            source_uid: self.source_uid,
            source_version: self.source_version,
            port_kind: self.port_kind,
            causal_frontier: self.causal_frontier@,
            payload_kind: self.payload_kind,
            source_authority: self.source_authority,
            emitted_class: self.emitted_class,
            capability: self.capability,
            causal_scope: self.causal_scope,
        }
    }
}

impl View for DepKind {
    type V = DepKindView;

    open spec fn view(&self) -> DepKindView {
        match self {
            DepKind::Local(None) => DepKindView::Local(None),
            DepKind::Local(Some(port)) => DepKindView::Local(Some((port.name@, port.kind))),
            DepKind::Remote(remote) => DepKindView::Remote(remote@),
        }
    }
}

impl View for RegionBoundary {
    type V = RegionBoundaryView;

    open spec fn view(&self) -> RegionBoundaryView {
        match self {
            RegionBoundary::DepClosure { max_depth } => RegionBoundaryView::DepClosure {
                max_depth: *max_depth,
            },
            RegionBoundary::ExplicitSet(ids) => RegionBoundaryView::ExplicitSet(ids@),
            RegionBoundary::PartitionScoped(pid) => RegionBoundaryView::PartitionScoped(*pid),
        }
    }
}

impl View for IsaOp {
    type V = IsaOpView;

    open spec fn view(&self) -> IsaOpView {
        match *self {
            IsaOp::NodeCreate { id, typ, rule, attrs } => IsaOpView::NodeCreate {
                id,
                typ: typ@,
                rule,
                attrs: attrs@,
            },
            IsaOp::EdgeConnect { id, typ, src, tgt, dep } => IsaOpView::EdgeConnect {
                id,
                typ: typ@,
                src,
                tgt,
                dep: dep@,
            },
            IsaOp::SetValue { node, val } => IsaOpView::SetValue { node, val },
            IsaOp::Propagate { node } => IsaOpView::Propagate { node },
            IsaOp::Subscribe { source, subscriber } => IsaOpView::Subscribe { source, subscriber },
            IsaOp::DelNode { id } => IsaOpView::DelNode { id },
            IsaOp::DelEdge { id } => IsaOpView::DelEdge { id },
            IsaOp::Demand { node } => IsaOpView::Demand { node },
            IsaOp::SetMode { node, mode } => IsaOpView::SetMode { node, mode },
            IsaOp::Reflect { node } => IsaOpView::Reflect { node },
            IsaOp::Stabilize { region: None } => IsaOpView::Stabilize { region: None },
            IsaOp::Stabilize { region: Some(ids) } => IsaOpView::Stabilize { region: Some(ids@) },
            IsaOp::PartitionCreate { id, authority_root, lattice_class, causal_domain } =>
                IsaOpView::PartitionCreate { id, authority_root, lattice_class, causal_domain },
            IsaOp::PartitionBind { node, partition } => IsaOpView::PartitionBind { node, partition },
            IsaOp::SetPartitionAuthority { partition, lattice_class, causal_domain } =>
                IsaOpView::SetPartitionAuthority { partition, lattice_class, causal_domain },
            IsaOp::SetEdgeLabel { source, target, label } => IsaOpView::SetEdgeLabel {
                source,
                target,
                label,
            },
            IsaOp::SetStabilizationConfig { node, config } => IsaOpView::SetStabilizationConfig {
                node,
                config,
            },
            IsaOp::SetExecutionPolicy { node, policy } => IsaOpView::SetExecutionPolicy {
                node,
                policy,
            },
            IsaOp::RegionDeclare { root, boundary, stability, compile } => IsaOpView::RegionDeclare {
                root,
                boundary: boundary@,
                stability,
                compile,
            },
        }
    }
}

impl IsaOp {
    /// The attributes, where there are any, are in order.
    pub open spec fn wf(&self) -> bool {
        self matches IsaOp::NodeCreate { attrs, .. } ==> attrs.wf()
    }
}

} // verus!

//! The authority gate of partitions, and the policy that it compares.
//!
//! A policy has two axes of integrity (asserting, delegating) and two of confidentiality
//! (observing, disclosing). As a claim it says what a session holds; as a requirement in a
//! partition's row it says what a session must hold.

use vstd::prelude::*;

use crate::idmap::{IdMap, Key};
use crate::isa::LatticeClass;
use crate::WirePartitionId;
use crate::opcode::OpcodeClass;

verus! {

/// Permission bits on four axes.
#[derive(Clone, Copy, Debug, PartialEq, Eq, Structural)]
pub struct AuthorityPolicy {
    /// May create or change distinctions.
    pub assertion: u64,
    /// May hand assertion rights on.
    pub delegation: u64,
    /// May witness distinctions.
    pub observability: u64,
    /// May reveal distinctions across partitions and sessions.
    pub disclosure: u64,
}

impl Default for AuthorityPolicy {
    fn default() -> (policy: Self)
        ensures
            policy == AuthorityPolicy::none(),
    {
        AuthorityPolicy::none()
    }
}

impl AuthorityPolicy {
    /// Every bit on every axis: the largest claim, the strictest requirement.
    #[verifier::allow_in_spec]
    pub fn all() -> AuthorityPolicy
        returns
            (AuthorityPolicy {
                assertion: u64::MAX,
                delegation: u64::MAX,
                observability: u64::MAX,
                disclosure: u64::MAX,
            }),
    {
        AuthorityPolicy {
            assertion: u64::MAX,
            delegation: u64::MAX,
            observability: u64::MAX,
            disclosure: u64::MAX,
        }
    }

    /// No bit on any axis: the smallest claim, no requirement.
    #[verifier::allow_in_spec]
    pub fn none() -> AuthorityPolicy
        returns
            (AuthorityPolicy {
                assertion: 0,
                delegation: 0,
                observability: 0,
                disclosure: 0,
            }),
    {
        AuthorityPolicy {
            assertion: 0,
            delegation: 0,
            observability: 0,
            disclosure: 0,
        }
    }

    /// May observe and disclose, but neither assert nor delegate.
    #[verifier::allow_in_spec]
    pub fn read_only() -> AuthorityPolicy
        returns
            (AuthorityPolicy {
                assertion: 0,
                delegation: 0,
                observability: u64::MAX,
                disclosure: u64::MAX,
            }),
    {
        AuthorityPolicy {
            assertion: 0,
            delegation: 0,
            observability: u64::MAX,
            disclosure: u64::MAX,
        }
    }

    /// The bits that both policies hold, axis by axis.
    #[verifier::allow_in_spec]
    pub fn intersect(self, other: Self) -> Self
        returns
            (AuthorityPolicy {
                assertion: self.assertion & other.assertion,
                delegation: self.delegation & other.delegation,
                observability: self.observability & other.observability,
                disclosure: self.disclosure & other.disclosure,
            }),
    {
        AuthorityPolicy {
            assertion: self.assertion & other.assertion,
            delegation: self.delegation & other.delegation,
            observability: self.observability & other.observability,
            disclosure: self.disclosure & other.disclosure,
        }
    }

    /// On every axis `ceiling` holds every bit that this policy holds.
    #[verifier::allow_in_spec]
    pub fn is_bounded_by(self, ceiling: Self) -> bool
        returns
            self == self.intersect(ceiling),
    {
        self == self.intersect(ceiling)
    }

    /// The bits of the axis that counts for instructions of class `oc`.
    #[verifier::allow_in_spec]
    pub fn for_opcode_class(&self, oc: OpcodeClass) -> u64
        returns
            (match oc {
                OpcodeClass::Subscribe | OpcodeClass::Demand => self.observability,
                OpcodeClass::Profile => self.delegation,
                OpcodeClass::Unknown => 0,
                _ => self.assertion,
            }),
    {
        match oc {
            OpcodeClass::Control
            | OpcodeClass::SetValue
            | OpcodeClass::Propagate
            | OpcodeClass::Stabilize
            | OpcodeClass::Data => self.assertion,
            OpcodeClass::Subscribe | OpcodeClass::Demand => self.observability,
            OpcodeClass::Profile => self.delegation,
            OpcodeClass::Unknown => 0,
        }
    }
}

/// An axis of an [`AuthorityPolicy`].
#[derive(Clone, Copy, Debug, PartialEq, Eq, Structural)]
pub enum AuthAxis {
    Assertion,
    Delegation,
    Observability,
    Disclosure,
}

/// What a partition asks of instructions of one class.
#[derive(Clone, Copy, Debug, PartialEq, Eq, Structural)]
pub struct PartitionAuthRow {
    /// The class that emitted information must flow to.
    pub lattice_class: LatticeClass,
    /// The bits that the session must hold.
    pub policy: AuthorityPolicy,
}

impl PartitionAuthRow {
    /// The row that asks for nothing: it is at the top class, so anything flows in, and it asks
    /// for no policy bits, so any session passes.
    #[verifier::allow_in_spec]
    pub fn permissive() -> PartitionAuthRow
        returns
            (PartitionAuthRow {
                lattice_class: LatticeClass::top(),
                policy: AuthorityPolicy::none(),
            }),
    {
        PartitionAuthRow { lattice_class: LatticeClass::top(), policy: AuthorityPolicy::none() }
    }
}

#[derive(Clone, Copy, Debug, PartialEq, Eq, Structural, Hash)]
pub struct AuthTableKey {
    pub partition_id: WirePartitionId,
    pub opcode_class: OpcodeClass,
}

spec fn class_code(class: OpcodeClass) -> u128 {
    match class {
        OpcodeClass::Control => 0,
        OpcodeClass::SetValue => 1,
        OpcodeClass::Propagate => 2,
        OpcodeClass::Subscribe => 3,
        OpcodeClass::Demand => 4,
        OpcodeClass::Stabilize => 5,
        OpcodeClass::Profile => 6,
        OpcodeClass::Data => 7,
        OpcodeClass::Unknown => 8,
    }
}

impl Key for AuthTableKey {
    closed spec fn code(self) -> u128 {
        (self.partition_id.0 * 16 + class_code(self.opcode_class)) as u128
    }

    fn to_code(self) -> (code: u128) {
        let class: u128 = match self.opcode_class {
            OpcodeClass::Control => 0,
            OpcodeClass::SetValue => 1,
            OpcodeClass::Propagate => 2,
            OpcodeClass::Subscribe => 3,
            OpcodeClass::Demand => 4,
            OpcodeClass::Stabilize => 5,
            OpcodeClass::Profile => 6,
            OpcodeClass::Data => 7,
            OpcodeClass::Unknown => 8,
        };
        self.partition_id.0 as u128 * 16 + class
    }

    fn from_code(code: u128) -> (key: Option<Self>) {
        let class: u128 = code % 16;
        let partition: u128 = code / 16;
        let opcode_class = if class == 0 {
            OpcodeClass::Control
        } else if class == 1 {
            OpcodeClass::SetValue
        } else if class == 2 {
            OpcodeClass::Propagate
        } else if class == 3 {
            OpcodeClass::Subscribe
        } else if class == 4 {
            OpcodeClass::Demand
        } else if class == 5 {
            OpcodeClass::Stabilize
        } else if class == 6 {
            OpcodeClass::Profile
        } else if class == 7 {
            OpcodeClass::Data
        } else if class == 8 {
            OpcodeClass::Unknown
        } else {
            return None;
        };
        if partition <= u64::MAX as u128 {
            Some(AuthTableKey { partition_id: WirePartitionId(partition as u64), opcode_class })
        } else {
            None
        }
    }

    proof fn code_injective(a: Self, b: Self) {
    }
}

#[derive(Clone, Copy, Debug, PartialEq, Eq, Structural)]
pub enum DataplaneGateReason {
    /// The emitted class does not flow to the partition's class.
    LatticeViolation,
    /// The session does not hold the bits that the partition asks for on this axis.
    PolicyViolation(AuthAxis),
}

#[derive(Clone, Copy, Debug, PartialEq, Eq, Structural)]
pub enum GateResult {
    Allow,
    Deny(DataplaneGateReason),
}

impl GateResult {
    #[verifier::allow_in_spec]
    pub fn is_allowed(self) -> bool
        returns
            self == GateResult::Allow,
    {
        matches!(self, GateResult::Allow)
    }
}

/// The axis that counts for instructions of class `oc`.
pub open spec fn axis_of(oc: OpcodeClass) -> AuthAxis {
    match oc {
        OpcodeClass::Subscribe | OpcodeClass::Demand => AuthAxis::Observability,
        OpcodeClass::Profile => AuthAxis::Delegation,
        _ => AuthAxis::Assertion,
    }
}

/// The verdict where the partition's row is `row`. Without a row everything passes.
pub open spec fn gate_verdict(
    row: Option<PartitionAuthRow>,
    oc: OpcodeClass,
    emitted: LatticeClass,
    session: AuthorityPolicy,
) -> GateResult {
    match row {
        None => GateResult::Allow,
        Some(row) => if !emitted.flows_to(row.lattice_class) {
            GateResult::Deny(DataplaneGateReason::LatticeViolation)
        } else if session.for_opcode_class(oc) & row.policy.for_opcode_class(oc)
            != row.policy.for_opcode_class(oc) {
            GateResult::Deny(DataplaneGateReason::PolicyViolation(axis_of(oc)))
        } else {
            GateResult::Allow
        },
    }
}

/// The rows of all partitions.
#[derive(Clone, Debug)]
pub struct PartitionAuthTable {
    rows: IdMap<AuthTableKey, PartitionAuthRow>,
}

impl View for PartitionAuthTable {
    type V = Map<AuthTableKey, PartitionAuthRow>;

    closed spec fn view(&self) -> Map<AuthTableKey, PartitionAuthRow> {
        self.rows@
    }
}

/// The row of a partition for instructions of class `oc`.
pub open spec fn row_of(
    rows: Map<AuthTableKey, PartitionAuthRow>,
    partition_id: WirePartitionId,
    oc: OpcodeClass,
) -> Option<PartitionAuthRow> {
    let key = AuthTableKey { partition_id, opcode_class: oc };
    if rows.contains_key(key) {
        Some(rows[key])
    } else {
        None
    }
}

impl Default for PartitionAuthTable {
    fn default() -> (value: Self)
        ensures
            value@ == Map::<AuthTableKey, PartitionAuthRow>::empty(),
    {
        PartitionAuthTable::new()
    }
}

impl PartitionAuthTable {
    pub fn new() -> (table: Self)
        ensures
            table@ == Map::<AuthTableKey, PartitionAuthRow>::empty(),
    {
        PartitionAuthTable { rows: IdMap::new() }
    }

    /// Installs a row, in place of the one that was there.
    pub fn install(&mut self, key: AuthTableKey, row: PartitionAuthRow)
        ensures
            final(self)@ == old(self)@.insert(key, row),
    {
        let _ = self.rows.insert(key, row);
    }

    pub fn remove(&mut self, key: &AuthTableKey)
        ensures
            final(self)@ == old(self)@.remove(*key),
    {
        let _ = self.rows.remove(key);
    }

    /// Whether a record may pass: its class must flow to the row's, and the session must hold
    /// the bits that the row asks for on the axis that counts.
    pub fn gate(
        &self,
        partition_id: WirePartitionId,
        opcode_class: OpcodeClass,
        emitted_class: LatticeClass,
        session_policy: AuthorityPolicy,
    ) -> (verdict: GateResult)
        ensures
            verdict == gate_verdict(
                row_of(self@, partition_id, opcode_class),
                opcode_class,
                emitted_class,
                session_policy,
            ),
    {
        let key = AuthTableKey { partition_id, opcode_class };
        let row = match self.rows.get(&key) {
            Some(row) => *row,
            None => return GateResult::Allow,
        };
        if !emitted_class.flows_to(row.lattice_class) {
            return GateResult::Deny(DataplaneGateReason::LatticeViolation);
        }
        let held: u64 = session_policy.for_opcode_class(opcode_class);
        let required: u64 = row.policy.for_opcode_class(opcode_class);
        if held & required != required {
            let axis = match opcode_class {
                OpcodeClass::Subscribe | OpcodeClass::Demand => AuthAxis::Observability,
                OpcodeClass::Profile => AuthAxis::Delegation,
                _ => AuthAxis::Assertion,
            };
            return GateResult::Deny(DataplaneGateReason::PolicyViolation(axis));
        }
        GateResult::Allow
    }

    pub fn len(&self) -> (n: usize)
        ensures
            n == self@.dom().len(),
    {
        self.rows.len()
    }

    pub fn is_empty(&self) -> (empty: bool)
        ensures
            empty == self@.is_empty(),
    {
        self.rows.is_empty()
    }
}

proof fn lemma_and(a: u64, b: u64, c: u64)
    ensures
        a & b == b & a,
        a & a == a,
        (a & b) & b == a & b,
        (a & b) & a == a & b,
        (a & b) & c == a & (b & c),
        a & u64::MAX == a,
        a & 0 == 0,
        0 & a == 0,
        a & b == a && b & c == b ==> a & c == a,
        c & a == c && c & b == c ==> c & (a & b) == c,
        a & b == a && a & c == c ==> b & c == c,
{
    assert(a & b == b & a && a & a == a && (a & b) & b == a & b && (a & b) & a == a & b && (a & b)
        & c == a & (b & c) && a & 0xFFFF_FFFF_FFFF_FFFFu64 == a && a & 0 == 0 && 0 & a == 0 && (a & b
        == a && b & c == b ==> a & c == a) && (c & a == c && c & b == c ==> c & (a & b) == c) && (a
        & b == a && a & c == c ==> b & c == c)) by (bit_vector);
}

/// An intersection is bounded by both policies, and whatever both bound, it bounds.
pub proof fn law_intersection_is_greatest_bound(
    claimed: AuthorityPolicy,
    ceiling: AuthorityPolicy,
    other: AuthorityPolicy,
)
    ensures
        claimed.intersect(ceiling).is_bounded_by(claimed),
        claimed.intersect(ceiling).is_bounded_by(ceiling),
        other.is_bounded_by(claimed) && other.is_bounded_by(ceiling) ==> other.is_bounded_by(
            claimed.intersect(ceiling),
        ),
{
    lemma_and(claimed.assertion, ceiling.assertion, other.assertion);
    lemma_and(claimed.delegation, ceiling.delegation, other.delegation);
    lemma_and(claimed.observability, ceiling.observability, other.observability);
    lemma_and(claimed.disclosure, ceiling.disclosure, other.disclosure);
}

/// Intersecting commutes, associates and is idempotent; the full policy is neutral and the
/// empty one absorbs.
pub proof fn law_intersection_algebra(a: AuthorityPolicy, b: AuthorityPolicy, c: AuthorityPolicy)
    ensures
        a.intersect(b) == b.intersect(a),
        a.intersect(b).intersect(c) == a.intersect(b.intersect(c)),
        a.intersect(a) == a,
        a.intersect(AuthorityPolicy::all()) == a,
        a.intersect(AuthorityPolicy::none()) == AuthorityPolicy::none(),
{
    lemma_and(a.assertion, b.assertion, c.assertion);
    lemma_and(a.delegation, b.delegation, c.delegation);
    lemma_and(a.observability, b.observability, c.observability);
    lemma_and(a.disclosure, b.disclosure, c.disclosure);
}

/// Being bounded is a partial order between the empty policy and the full one.
pub proof fn law_bounds_are_a_partial_order(
    a: AuthorityPolicy,
    b: AuthorityPolicy,
    c: AuthorityPolicy,
)
    ensures
        a.is_bounded_by(a),
        a.is_bounded_by(b) && b.is_bounded_by(a) ==> a == b,
        a.is_bounded_by(b) && b.is_bounded_by(c) ==> a.is_bounded_by(c),
        AuthorityPolicy::none().is_bounded_by(a),
        a.is_bounded_by(AuthorityPolicy::all()),
{
    lemma_and(a.assertion, b.assertion, c.assertion);
    lemma_and(a.delegation, b.delegation, c.delegation);
    lemma_and(a.observability, b.observability, c.observability);
    lemma_and(a.disclosure, b.disclosure, c.disclosure);
}

/// The bottom class flows everywhere, everything flows to the top class, and flowing is
/// reflexive and transitive.
pub proof fn law_lattice_flow(a: LatticeClass, b: LatticeClass, c: LatticeClass)
    ensures
        LatticeClass::bottom().flows_to(a),
        a.flows_to(LatticeClass::top()),
        a.flows_to(a),
        a.flows_to(b) && b.flows_to(c) ==> a.flows_to(c),
        a.flows_to(LatticeClass::bottom()) <==> a == LatticeClass::bottom(),
{
    lemma_and(a.0, b.0, c.0);
}

/// Without a row everything passes, and a permissive row lets everything pass as if it were not
/// there.
pub proof fn law_gate_is_permissive_by_default(
    oc: OpcodeClass,
    emitted: LatticeClass,
    session: AuthorityPolicy,
)
    ensures
        gate_verdict(None, oc, emitted, session).is_allowed(),
        gate_verdict(
            Some(PartitionAuthRow::permissive()),
            oc,
            emitted,
            session,
        ).is_allowed(),
{
    law_lattice_flow(emitted, emitted, emitted);
    lemma_and(session.for_opcode_class(oc), 0, 0);
}

/// What passes with some authority passes with more.
pub proof fn law_gate_is_monotone(
    row: Option<PartitionAuthRow>,
    oc: OpcodeClass,
    emitted: LatticeClass,
    session: AuthorityPolicy,
    larger: AuthorityPolicy,
)
    requires
        session.is_bounded_by(larger),
        gate_verdict(row, oc, emitted, session).is_allowed(),
    ensures
        gate_verdict(row, oc, emitted, larger).is_allowed(),
{
    if row is Some {
        lemma_and(
            session.for_opcode_class(oc),
            larger.for_opcode_class(oc),
            row->0.policy.for_opcode_class(oc),
        );
    }
}

} // verus!

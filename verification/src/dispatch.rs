//! Parsing of record payloads into instructions.

use vstd::prelude::*;
use vstd::slice::{slice_subrange, slice_to_vec};
use vstd::utf8::encode_utf8_decode_utf8;

use crate::attr::{Attrs, Val, canonical_float};
use crate::bytes::{
    byte_to_signed, lemma_byte_ranges, lemma_le_value_bound, read_le, signed_byte, signed_word,
    utf8_text, word_to_signed,
};
use crate::decode::IngressError;
use crate::grammar::{
    compile_of, convergence_of, edge_type, exec_mode_of, node_kind_of, op_in, port_kind_of,
    priority_of, retry_of, stability_of, stabilization_domain_of, strategy_of, take_attrs,
    take_blob, take_boundary, take_dep, take_edge_connect, take_entries, take_frontier,
    take_node_create, take_partition_bind, take_partition_create, take_payload_kind, take_pid,
    take_region_declare, take_remote_dep, take_set_edge_label, take_set_execution_policy,
    take_set_mode, take_set_partition_authority, take_set_stabilization_config, take_set_value,
    take_stabilize, take_subscribe, take_ternary, take_text, take_u16, take_u32, take_u64,
    take_u8, take_uid, take_uids, take_val, ternary_of, truncated, without_rest, zero_kind_of,
};
use crate::isa::{
    CapabilityBits, CausalScope, CompilePolicy, ComputeRule, ConvergencePolicy, DepKind,
    EdgeLabel, ExecMode, ExecutionPolicy, IsaOp, IsaOpView, LatticeClass, NodeKind, PartitionId,
    PayloadKind, Port, PortKind, QueuePriority, RegionBoundary, RemoteDep, RetryPolicy,
    RewriteBudget, RewriteStrategy, StabilityContract, StabilizationConfig, StabilizationDomain,
    T, Uid, VectorClock, ZeroKind,
};

verus! {

/// What an engine said when it failed.
#[derive(Clone, Debug)]
pub struct EngineError {
    pub message: String,
}

/// Error from the dispatch pipeline.
#[derive(Clone, Debug)]
pub enum DispatchError {
    Ingress(IngressError),
    Engine(EngineError),
    PayloadTruncated { needed: usize, available: usize },
    InvalidUtf8,
    InvalidTernaryValue(i8),
    UnknownOpcode(u16),
    UnknownNodeRule(u8),
    UnknownPortKind(u8),
    UnknownDepKind(u8),
    UnknownExecMode(u8),
    UnsupportedAttrTag(u8),
    UnknownZeroKind(u8),
    UnknownPayloadKind(u8),
    UnknownRegionBoundaryTag(u8),
    UnknownStabilityContract(u8),
    UnknownCompilePolicy(u8),
    /// The session may not disclose what an edge across partitions would reveal.
    DisclosureViolation { required: u64, held: u64 },
}

impl From<IngressError> for DispatchError {
    fn from(e: IngressError) -> (error: Self) {
        DispatchError::Ingress(e)
    }
}

impl vstd::std_specs::convert::FromSpecImpl<IngressError> for DispatchError {
    open spec fn obeys_from_spec() -> bool {
        true
    }

    open spec fn from_spec(e: IngressError) -> Self {
        DispatchError::Ingress(e)
    }
}

impl From<EngineError> for DispatchError {
    fn from(e: EngineError) -> (error: Self) {
        DispatchError::Engine(e)
    }
}

impl vstd::std_specs::convert::FromSpecImpl<EngineError> for DispatchError {
    open spec fn obeys_from_spec() -> bool {
        true
    }

    open spec fn from_spec(e: EngineError) -> Self {
        DispatchError::Engine(e)
    }
}

/// A cursor over a payload.
pub struct Reader<'a> {
    pub buf: &'a [u8],
    pub pos: usize,
}

impl<'a> Reader<'a> {
    pub open spec fn wf(&self) -> bool {
        self.pos <= self.buf@.len() <= usize::MAX
    }

    /// The bytes that were not read yet.
    pub open spec fn rest(&self) -> Seq<u8> {
        self.buf@.skip(self.pos as int)
    }

    /// What a read leaves behind: on success the value and the bytes after it, else the error.
    pub open spec fn reads<A, B>(
        after: Self,
        result: Result<A, DispatchError>,
        value: spec_fn(A) -> B,
        expected: Result<(B, Seq<u8>), DispatchError>,
    ) -> bool {
        &&& after.wf()
        &&& match expected {
            Ok((v, rest)) => result is Ok && value(result->Ok_0) == v && after.rest() == rest,
            Err(e) => result == Err::<A, DispatchError>(e),
        }
    }

    pub fn new(buf: &'a [u8]) -> (r: Self)
        ensures
            r.wf(),
            r.rest() == buf@,
    {
        let n: usize = buf.len();
        let r = Reader { buf, pos: 0 };
        assert(r.rest() =~= buf@);
        r
    }

    pub fn remaining(&self) -> (n: usize)
        requires
            self.wf(),
        ensures
            n == self.rest().len(),
    {
        self.buf.len() - self.pos
    }

    pub fn need(&self, n: usize) -> (r: Result<(), DispatchError>)
        requires
            self.wf(),
        ensures
            r == (if self.rest().len() < n { Err::<(), _>(truncated(n as int, self.rest())) } else { Ok(()) }),
    {
        if self.remaining() < n {
            Err(DispatchError::PayloadTruncated { needed: n, available: self.remaining() })
        } else {
            Ok(())
        }
    }

    pub fn read_u8(&mut self) -> (r: Result<u8, DispatchError>)
        requires
            old(self).wf(),
        ensures
            Self::reads(*final(self), r, |v: u8| v, take_u8(old(self).rest())),
    {
        self.need(1)?;
        let v: u8 = self.buf[self.pos];
        self.pos = self.pos + 1;
        assert(self.rest() =~= old(self).rest().skip(1));
        Ok(v)
    }

    pub fn read_i8(&mut self) -> (r: Result<i8, DispatchError>)
        requires
            old(self).wf(),
        ensures
            Self::reads(*final(self), r, |v: i8| signed_byte(v), take_u8(old(self).rest())),
    {
        let b: u8 = self.read_u8()?;
        Ok(byte_to_signed(b))
    }

    pub fn read_u16(&mut self) -> (r: Result<u16, DispatchError>)
        requires
            old(self).wf(),
        ensures
            Self::reads(*final(self), r, |v: u16| v, take_u16(old(self).rest())),
    {
        self.need(2)?;
        let v: u64 = read_le(self.buf, self.pos, 2);
        proof {
            assert(self.buf@.subrange(self.pos as int, self.pos + 2) =~= self.rest().take(2));
            lemma_le_value_bound(self.rest().take(2));
            lemma_byte_ranges();
        }
        self.pos = self.pos + 2;
        assert(self.rest() =~= old(self).rest().skip(2));
        Ok(v as u16)
    }

    pub fn read_u32(&mut self) -> (r: Result<u32, DispatchError>)
        requires
            old(self).wf(),
        ensures
            Self::reads(*final(self), r, |v: u32| v, take_u32(old(self).rest())),
    {
        self.need(4)?;
        let v: u64 = read_le(self.buf, self.pos, 4);
        proof {
            assert(self.buf@.subrange(self.pos as int, self.pos + 4) =~= self.rest().take(4));
            lemma_le_value_bound(self.rest().take(4));
            lemma_byte_ranges();
        }
        self.pos = self.pos + 4;
        assert(self.rest() =~= old(self).rest().skip(4));
        Ok(v as u32)
    }

    pub fn read_u64(&mut self) -> (r: Result<u64, DispatchError>)
        requires
            old(self).wf(),
        ensures
            Self::reads(*final(self), r, |v: u64| v, take_u64(old(self).rest())),
    {
        self.need(8)?;
        let v: u64 = read_le(self.buf, self.pos, 8);
        proof {
            assert(self.buf@.subrange(self.pos as int, self.pos + 8) =~= self.rest().take(8));
            lemma_le_value_bound(self.rest().take(8));
            lemma_byte_ranges();
        }
        self.pos = self.pos + 8;
        assert(self.rest() =~= old(self).rest().skip(8));
        Ok(v as u64)
    }

    pub fn read_i64(&mut self) -> (r: Result<i64, DispatchError>)
        requires
            old(self).wf(),
        ensures
            Self::reads(*final(self), r, |v: i64| signed_word(v), take_u64(old(self).rest())),
    {
        let w: u64 = self.read_u64()?;
        Ok(word_to_signed(w))
    }

    /// Reads the bits of a float. A NaN comes out in canonical form.
    pub fn read_f64(&mut self) -> (r: Result<u64, DispatchError>)
        requires
            old(self).wf(),
        ensures
            final(self).wf(),
            match take_u64(old(self).rest()) {
                Ok((w, rest)) => r == Ok::<u64, DispatchError>(canonical_float(w)) && final(self).rest() == rest,
                Err(e) => r == Err::<u64, DispatchError>(e),
            },
    {
        let w: u64 = self.read_u64()?;
        Ok(canonical_float(w))
    }

    pub fn read_uid(&mut self) -> (r: Result<Uid, DispatchError>)
        requires
            old(self).wf(),
        ensures
            Self::reads(*final(self), r, |v: Uid| v, take_uid(old(self).rest())),
    {
        let w: u64 = self.read_u64()?;
        Ok(wire_to_uid(w))
    }

    pub fn read_pid(&mut self) -> (r: Result<PartitionId, DispatchError>)
        requires
            old(self).wf(),
        ensures
            Self::reads(*final(self), r, |v: PartitionId| v, take_pid(old(self).rest())),
    {
        let w: u64 = self.read_u64()?;
        Ok(wire_to_partition_id(w))
    }

    /// Reads a text behind its length in bytes.
    pub fn read_str_u16(&mut self) -> (r: Result<String, DispatchError>)
        requires
            old(self).wf(),
        ensures
            Self::reads(*final(self), r, |v: String| v@, take_text(old(self).rest())),
    {
        let len: usize = self.read_u16()? as usize;
        self.need(len)?;
        let ghost before = self.rest();
        let bytes = slice_subrange(self.buf, self.pos, self.pos + len);
        assert(bytes@ =~= before.take(len as int));
        match utf8_text(bytes) {
            Some(text) => {
                proof {
                    encode_utf8_decode_utf8(text@);
                }
                self.pos = self.pos + len;
                assert(self.rest() =~= before.skip(len as int));
                Ok(text)
            },
            None => Err(DispatchError::InvalidUtf8),
        }
    }

    /// Reads a run of bytes behind its length.
    pub fn read_bytes_u32(&mut self) -> (r: Result<Vec<u8>, DispatchError>)
        requires
            old(self).wf(),
        ensures
            Self::reads(*final(self), r, |v: Vec<u8>| v@, take_blob(old(self).rest())),
    {
        let len: usize = self.read_u32()? as usize;
        self.need(len)?;
        let ghost before = self.rest();
        let bytes = slice_subrange(self.buf, self.pos, self.pos + len);
        assert(bytes@ =~= before.take(len as int));
        self.pos = self.pos + len;
        assert(self.rest() =~= before.skip(len as int));
        Ok(slice_to_vec(bytes))
    }

    pub fn read_ternary(&mut self) -> (r: Result<T, DispatchError>)
        requires
            old(self).wf(),
        ensures
            Self::reads(*final(self), r, |v: T| v, take_ternary(old(self).rest())),
    {
        let b: i8 = self.read_i8()?;
        wire_to_t(b)
    }

    /// Reads `count` node identities.
    pub fn read_uids(&mut self, count: usize) -> (r: Result<Vec<Uid>, DispatchError>)
        requires
            old(self).wf(),
        ensures
            Self::reads(
                *final(self),
                r,
                |v: Vec<Uid>| v@,
                take_uids(Seq::empty(), count as nat, old(self).rest()),
            ),
    {
        let mut ids: Vec<Uid> = Vec::new();
        let mut left: usize = count;
        while left > 0
            invariant
                self.wf(),
                take_uids(Seq::empty(), count as nat, old(self).rest()) == take_uids(
                    ids@,
                    left as nat,
                    self.rest(),
                ),
            decreases left,
        {
            let id = self.read_uid()?;
            ids.push(id);
            left = left - 1;
        }
        Ok(ids)
    }

    /// Reads an attribute value behind its tag.
    pub fn read_val(&mut self) -> (r: Result<Val, DispatchError>)
        requires
            old(self).wf(),
        ensures
            Self::reads(*final(self), r, |v: Val| v@, take_val(old(self).rest())),
    {
        let tag: u8 = self.read_u8()?;
        match tag {
            0x01 => {
                let b: u8 = self.read_u8()?;
                Ok(Val::Bool(b != 0))
            },
            0x02 => {
                let i: i64 = self.read_i64()?;
                Ok(Val::Int(i))
            },
            0x03 => {
                let bits: u64 = self.read_f64()?;
                Ok(Val::Float(bits))
            },
            0x04 => {
                let text = self.read_str_u16()?;
                Ok(Val::Text(text))
            },
            0x05 => {
                let _skip = self.read_bytes_u32()?;
                Err(DispatchError::UnsupportedAttrTag(0x05))
            },
            0x06 => {
                let t = self.read_ternary()?;
                Ok(Val::Ternary(t))
            },
            0x07 => {
                let uid: u64 = self.read_u64()?;
                Ok(Val::Int(word_to_signed(uid)))
            },
            other => Err(DispatchError::UnsupportedAttrTag(other)),
        }
    }
}

/// The engine's identity of the node that a record calls `id`.
pub fn wire_to_uid(id: u64) -> (uid: Uid)
    ensures
        uid == Uid(id as u128),
{
    Uid::from_u128(id as u128)
}

/// The engine's identity of the partition that a record calls `id`.
pub fn wire_to_partition_id(id: u64) -> (pid: PartitionId)
    ensures
        pid == PartitionId(id as u128),
{
    PartitionId::from_u128(id as u128)
}

pub fn wire_to_t(v: i8) -> (r: Result<T, DispatchError>)
    ensures
        r == ternary_of(v),
{
    match v {
        -1 => Ok(T::Neg),
        0 => Ok(T::Zero),
        1 => Ok(T::Pos),
        _ => Err(DispatchError::InvalidTernaryValue(v)),
    }
}

/// Parses the attributes of a node: a count, and that many keys with their values.
pub fn parse_attr_map(r: &mut Reader) -> (res: Result<Attrs, DispatchError>)
    requires
        old(r).wf(),
    ensures
        Reader::reads(*final(r), res, |v: Attrs| v@, take_attrs(old(r).rest())),
        res is Ok ==> res->Ok_0.wf(),
{
    let count: u16 = r.read_u16()?;
    let mut attrs = Attrs::new();
    let mut left: u16 = count;
    while left > 0
        invariant
            r.wf(),
            attrs.wf(),
            take_attrs(old(r).rest()) == take_entries(attrs@, left as nat, r.rest()),
        decreases left,
    {
        let key = r.read_str_u16()?;
        let val = r.read_val()?;
        attrs.set(key, val);
        left = left - 1;
    }
    Ok(attrs)
}

fn node_kind(b: u8) -> (r: Option<NodeKind>)
    ensures
        r == node_kind_of(b),
{
    match b {
        0x00 => Some(NodeKind::Input),
        0x01 => Some(NodeKind::Computed(ComputeRule::Identity)),
        0x02 => Some(NodeKind::Computed(ComputeRule::MvNeg)),
        0x03 => Some(NodeKind::Computed(ComputeRule::MvAdd)),
        0x04 => Some(NodeKind::Computed(ComputeRule::MvMul)),
        0x05 => Some(NodeKind::Computed(ComputeRule::MvSub)),
        0x06 => Some(NodeKind::Computed(ComputeRule::Merge)),
        0x07 => Some(NodeKind::Computed(ComputeRule::MeetAll)),
        0x08 => Some(NodeKind::Computed(ComputeRule::JoinAny)),
        0x09 => Some(NodeKind::Computed(ComputeRule::BochvarFold)),
        0x0A => Some(NodeKind::Computed(ComputeRule::PowerProduct)),
        _ => None,
    }
}

fn port_kind(b: u8) -> (r: Option<PortKind>)
    ensures
        r == port_kind_of(b),
{
    match b {
        0x00 => Some(PortKind::Signal),
        0x01 => Some(PortKind::Effort),
        0x02 => Some(PortKind::Flow),
        0x03 => Some(PortKind::Bond),
        _ => None,
    }
}

fn zero_kind(b: u8) -> (r: Option<ZeroKind>)
    ensures
        r == zero_kind_of(b),
{
    match b {
        0x00 => Some(ZeroKind::Conflict),
        0x01 => Some(ZeroKind::Incomplete),
        0x02 => Some(ZeroKind::Ambiguous),
        0x03 => Some(ZeroKind::Retracted),
        0x04 => Some(ZeroKind::BoundaryViolation),
        0x05 => Some(ZeroKind::VersionSkew),
        _ => None,
    }
}

fn exec_mode(b: u8) -> (r: Option<ExecMode>)
    ensures
        r == exec_mode_of(b),
{
    match b {
        0x00 => Some(ExecMode::Eager),
        0x01 => Some(ExecMode::Lazy),
        0x02 => Some(ExecMode::Stabilizing),
        _ => None,
    }
}

fn strategy(b: u8) -> (r: RewriteStrategy)
    ensures
        r == strategy_of(b),
{
    match b {
        0x00 => RewriteStrategy::FullL3,
        _ => RewriteStrategy::Restricted(b as u64),
    }
}

fn stabilization_domain(b: u8) -> (r: StabilizationDomain)
    ensures
        r == stabilization_domain_of(b),
{
    match b {
        0x00 => StabilizationDomain::LocalOnly,
        0x01 => StabilizationDomain::Federated,
        _ => StabilizationDomain::Inherit,
    }
}

fn convergence(b: u8) -> (r: ConvergencePolicy)
    ensures
        r == convergence_of(b),
{
    match b {
        0x00 => ConvergencePolicy::Canonical,
        0x01 => ConvergencePolicy::Witness,
        _ => ConvergencePolicy::BudgetExhausted,
    }
}

fn priority(b: u8) -> (r: QueuePriority)
    ensures
        r == priority_of(b),
{
    match b {
        0x01 => QueuePriority::High,
        0x02 => QueuePriority::Low,
        _ => QueuePriority::Normal,
    }
}

fn retry(b: u8) -> (r: RetryPolicy)
    ensures
        r == retry_of(b),
{
    match b {
        0x01 => RetryPolicy::Retry { max_attempts: 3 },
        _ => RetryPolicy::Fail,
    }
}

fn stability(b: u8) -> (r: Option<StabilityContract>)
    ensures
        r == stability_of(b),
{
    match b {
        0x00 => Some(StabilityContract::Pinned),
        0x01 => Some(StabilityContract::EpochTracked),
        _ => None,
    }
}

fn compile(b: u8) -> (r: Option<CompilePolicy>)
    ensures
        r == compile_of(b),
{
    match b {
        0x00 => Some(CompilePolicy::Eager),
        0x01 => Some(CompilePolicy::Lazy),
        0x02 => Some(CompilePolicy::Never),
        _ => None,
    }
}

/// The result of a parse, by its content.
pub open spec fn parsed(res: Result<IsaOp, DispatchError>) -> Result<IsaOpView, DispatchError> {
    match res {
        Ok(op) => Ok(op@),
        Err(e) => Err(e),
    }
}

fn parse_node_create(r: &mut Reader) -> (res: Result<IsaOp, DispatchError>)
    requires
        old(r).wf(),
    ensures
        parsed(res) == without_rest(take_node_create(old(r).rest())),
        res is Ok ==> res->Ok_0.wf(),
{
    let id = r.read_uid()?;
    let typ = r.read_str_u16()?;
    let b: u8 = r.read_u8()?;
    let rule = match node_kind(b) {
        Some(rule) => rule,
        None => return Err(DispatchError::UnknownNodeRule(b)),
    };
    let attrs = parse_attr_map(r)?;
    Ok(IsaOp::NodeCreate { id, typ, rule, attrs })
}

fn parse_payload_kind(r: &mut Reader) -> (res: Result<PayloadKind, DispatchError>)
    requires
        old(r).wf(),
    ensures
        Reader::reads(*final(r), res, |v: PayloadKind| v, take_payload_kind(old(r).rest())),
{
    let kind: u8 = r.read_u8()?;
    match kind {
        0x00 => Ok(PayloadKind::Definite),
        0x01 => {
            let zero: u8 = r.read_u8()?;
            match zero_kind(zero) {
                Some(z) => Ok(PayloadKind::TypedZero(z)),
                None => Err(DispatchError::UnknownZeroKind(zero)),
            }
        },
        b => Err(DispatchError::UnknownPayloadKind(b)),
    }
}

fn parse_frontier(r: &mut Reader, count: u16) -> (res: Result<VectorClock, DispatchError>)
    requires
        old(r).wf(),
    ensures
        Reader::reads(
            *final(r),
            res,
            |v: VectorClock| v@,
            take_frontier(Map::empty(), count as nat, old(r).rest()),
        ),
{
    let mut frontier = VectorClock::new();
    let mut left: u16 = count;
    while left > 0
        invariant
            r.wf(),
            take_frontier(Map::empty(), count as nat, old(r).rest()) == take_frontier(
                frontier@,
                left as nat,
                r.rest(),
            ),
        decreases left,
    {
        let pid = r.read_pid()?;
        let clock: u64 = r.read_u64()?;
        frontier.set(pid, clock);
        left = left - 1;
    }
    Ok(frontier)
}

fn parse_remote_dep(r: &mut Reader, port_kind: PortKind) -> (res: Result<RemoteDep, DispatchError>)
    requires
        old(r).wf(),
    ensures
        match take_remote_dep(port_kind, old(r).rest()) {
            Ok((remote, _)) => res is Ok && res->Ok_0@ == remote,
            Err(e) => res == Err::<RemoteDep, DispatchError>(e),
        },
{
    let source_partition = r.read_pid()?;
    let source_uid = r.read_uid()?;
    let source_version: u64 = r.read_u64()?;
    let payload_kind = parse_payload_kind(r)?;
    let count: u16 = r.read_u16()?;
    let causal_frontier = parse_frontier(r, count)?;
    let source_authority = r.read_pid()?;
    let emitted_class = LatticeClass(r.read_u64()?);
    let capability = CapabilityBits(r.read_u8()? as u64);
    let scope_bits: u64 = r.read_u64()?;
    Ok(
        RemoteDep {
            source_partition,
            source_uid,
            source_version,
            port_kind,
            causal_frontier,
            payload_kind,
            source_authority,
            emitted_class,
            capability,
            causal_scope: CausalScope { scope_bits, root: PartitionId::nil() },
        },
    )
}

fn parse_dep(r: &mut Reader, dep: u8, kind: PortKind, name: String) -> (res: Result<
    DepKind,
    DispatchError,
>)
    requires
        old(r).wf(),
    ensures
        match take_dep(dep, kind, name@, old(r).rest()) {
            Ok((d, _)) => res is Ok && res->Ok_0@ == d,
            Err(e) => res == Err::<DepKind, DispatchError>(e),
        },
{
    match dep {
        0x00 => {
            if name.as_str().is_empty() {
                Ok(DepKind::Local(None))
            } else {
                Ok(DepKind::Local(Some(Port { name, kind })))
            }
        },
        0x01 => {
            let remote = parse_remote_dep(r, kind)?;
            Ok(DepKind::Remote(remote))
        },
        b => Err(DispatchError::UnknownDepKind(b)),
    }
}

#[verifier::rlimit(30)]
fn parse_edge_connect(r: &mut Reader) -> (res: Result<IsaOp, DispatchError>)
    requires
        old(r).wf(),
    ensures
        parsed(res) == without_rest(take_edge_connect(old(r).rest())),
        res is Ok ==> res->Ok_0.wf(),
{
    let id = r.read_uid()?;
    let src = r.read_uid()?;
    let tgt = r.read_uid()?;
    let dep_byte: u8 = r.read_u8()?;
    let port_byte: u8 = r.read_u8()?;
    let name = r.read_str_u16()?;
    let kind = match port_kind(port_byte) {
        Some(kind) => kind,
        None => return Err(DispatchError::UnknownPortKind(port_byte)),
    };
    let dep = parse_dep(r, dep_byte, kind, name)?;
    let typ = "dep".to_owned();
    proof {
        reveal_strlit("dep");
        assert(typ@ =~= edge_type());
    }
    Ok(IsaOp::EdgeConnect { id, typ, src, tgt, dep })
}

fn parse_set_value(r: &mut Reader) -> (res: Result<IsaOp, DispatchError>)
    requires
        old(r).wf(),
    ensures
        parsed(res) == without_rest(take_set_value(old(r).rest())),
        res is Ok ==> res->Ok_0.wf(),
{
    let node = r.read_uid()?;
    let val = r.read_ternary()?;
    Ok(IsaOp::SetValue { node, val })
}

fn parse_subscribe(r: &mut Reader) -> (res: Result<IsaOp, DispatchError>)
    requires
        old(r).wf(),
    ensures
        parsed(res) == without_rest(take_subscribe(old(r).rest())),
        res is Ok ==> res->Ok_0.wf(),
{
    let source = r.read_uid()?;
    let subscriber = r.read_uid()?;
    Ok(IsaOp::Subscribe { source, subscriber })
}

fn parse_set_mode(r: &mut Reader) -> (res: Result<IsaOp, DispatchError>)
    requires
        old(r).wf(),
    ensures
        parsed(res) == without_rest(take_set_mode(old(r).rest())),
        res is Ok ==> res->Ok_0.wf(),
{
    let node = r.read_uid()?;
    let b: u8 = r.read_u8()?;
    match exec_mode(b) {
        Some(mode) => Ok(IsaOp::SetMode { node, mode }),
        None => Err(DispatchError::UnknownExecMode(b)),
    }
}

fn parse_stabilize(r: &mut Reader) -> (res: Result<IsaOp, DispatchError>)
    requires
        old(r).wf(),
    ensures
        parsed(res) == without_rest(take_stabilize(old(r).rest())),
        res is Ok ==> res->Ok_0.wf(),
{
    let count: u32 = r.read_u32()?;
    let region = if count == 0 {
        None
    } else {
        Some(r.read_uids(count as usize)?)
    };
    Ok(IsaOp::Stabilize { region })
}

fn parse_partition_create(r: &mut Reader) -> (res: Result<IsaOp, DispatchError>)
    requires
        old(r).wf(),
    ensures
        parsed(res) == without_rest(take_partition_create(old(r).rest())),
        res is Ok ==> res->Ok_0.wf(),
{
    let id = r.read_pid()?;
    let authority_root = r.read_pid()?;
    let lattice_class = LatticeClass(r.read_u64()?);
    let scope_bits: u64 = r.read_u64()?;
    Ok(
        IsaOp::PartitionCreate {
            id,
            authority_root,
            lattice_class,
            causal_domain: CausalScope { scope_bits, root: id },
        },
    )
}

fn parse_partition_bind(r: &mut Reader) -> (res: Result<IsaOp, DispatchError>)
    requires
        old(r).wf(),
    ensures
        parsed(res) == without_rest(take_partition_bind(old(r).rest())),
        res is Ok ==> res->Ok_0.wf(),
{
    let node = r.read_uid()?;
    let partition = r.read_pid()?;
    Ok(IsaOp::PartitionBind { node, partition })
}

fn parse_set_partition_authority(r: &mut Reader) -> (res: Result<IsaOp, DispatchError>)
    requires
        old(r).wf(),
    ensures
        parsed(res) == without_rest(take_set_partition_authority(old(r).rest())),
        res is Ok ==> res->Ok_0.wf(),
{
    let partition = r.read_pid()?;
    let lattice_class = LatticeClass(r.read_u64()?);
    let scope_bits: u64 = r.read_u64()?;
    Ok(
        IsaOp::SetPartitionAuthority {
            partition,
            lattice_class,
            causal_domain: CausalScope { scope_bits, root: PartitionId::nil() },
        },
    )
}

fn parse_set_edge_label(r: &mut Reader) -> (res: Result<IsaOp, DispatchError>)
    requires
        old(r).wf(),
    ensures
        parsed(res) == without_rest(take_set_edge_label(old(r).rest())),
        res is Ok ==> res->Ok_0.wf(),
{
    let source = r.read_uid()?;
    let target = r.read_uid()?;
    let lattice_class = LatticeClass(r.read_u64()?);
    let capability = CapabilityBits(r.read_u8()? as u64);
    let scope_bits: u64 = r.read_u64()?;
    let causal_scope = CausalScope { scope_bits, root: PartitionId::nil() };
    Ok(
        IsaOp::SetEdgeLabel {
            source,
            target,
            label: EdgeLabel { capability, lattice_class, causal_scope },
        },
    )
}

fn parse_set_stabilization_config(r: &mut Reader) -> (res: Result<IsaOp, DispatchError>)
    requires
        old(r).wf(),
    ensures
        parsed(res) == without_rest(take_set_stabilization_config(old(r).rest())),
        res is Ok ==> res->Ok_0.wf(),
{
    let node = r.read_uid()?;
    let strategy_byte: u8 = r.read_u8()?;
    let domain_byte: u8 = r.read_u8()?;
    let max_iterations: usize = r.read_u32()? as usize;
    let convergence_byte: u8 = r.read_u8()?;
    Ok(
        IsaOp::SetStabilizationConfig {
            node,
            config: StabilizationConfig {
                strategy: strategy(strategy_byte),
                domain: stabilization_domain(domain_byte),
                budget: RewriteBudget { max_iterations },
                convergence_policy: convergence(convergence_byte),
            },
        },
    )
}

fn parse_set_execution_policy(r: &mut Reader) -> (res: Result<IsaOp, DispatchError>)
    requires
        old(r).wf(),
    ensures
        parsed(res) == without_rest(take_set_execution_policy(old(r).rest())),
        res is Ok ==> res->Ok_0.wf(),
{
    let node = r.read_uid()?;
    let priority_byte: u8 = r.read_u8()?;
    let retry_byte: u8 = r.read_u8()?;
    Ok(
        IsaOp::SetExecutionPolicy {
            node,
            policy: ExecutionPolicy {
                queue_priority: priority(priority_byte),
                retry_policy: retry(retry_byte),
            },
        },
    )
}

fn parse_boundary(r: &mut Reader) -> (res: Result<RegionBoundary, DispatchError>)
    requires
        old(r).wf(),
    ensures
        Reader::reads(*final(r), res, |v: RegionBoundary| v@, take_boundary(old(r).rest())),
{
    let tag: u8 = r.read_u8()?;
    match tag {
        0x00 => {
            let max_depth: usize = r.read_u32()? as usize;
            Ok(RegionBoundary::DepClosure { max_depth })
        },
        0x01 => {
            let count: usize = r.read_u32()? as usize;
            let ids = r.read_uids(count)?;
            Ok(RegionBoundary::ExplicitSet(ids))
        },
        0x02 => {
            let pid = r.read_pid()?;
            Ok(RegionBoundary::PartitionScoped(pid))
        },
        b => Err(DispatchError::UnknownRegionBoundaryTag(b)),
    }
}

fn parse_region_declare(r: &mut Reader) -> (res: Result<IsaOp, DispatchError>)
    requires
        old(r).wf(),
    ensures
        parsed(res) == without_rest(take_region_declare(old(r).rest())),
        res is Ok ==> res->Ok_0.wf(),
{
    let root = r.read_uid()?;
    let boundary = parse_boundary(r)?;
    let stability_byte: u8 = r.read_u8()?;
    let stability = match stability(stability_byte) {
        Some(stability) => stability,
        None => return Err(DispatchError::UnknownStabilityContract(stability_byte)),
    };
    let compile_byte: u8 = r.read_u8()?;
    let compile = match compile(compile_byte) {
        Some(compile) => compile,
        None => return Err(DispatchError::UnknownCompilePolicy(compile_byte)),
    };
    Ok(IsaOp::RegionDeclare { root, boundary, stability, compile })
}

/// The instruction that `payload` holds under `opcode`.
///
/// The payload is what follows the 48 header bytes of a record. Bytes after the instruction
/// are ignored.
pub fn parse_payload(opcode: u16, payload: &[u8]) -> (res: Result<IsaOp, DispatchError>)
    ensures
        parsed(res) == op_in(opcode, payload@),
        res is Ok ==> res->Ok_0.wf(),
{
    let mut r = Reader::new(payload);
    match opcode {
        0x0001 => parse_node_create(&mut r),
        0x0002 => parse_edge_connect(&mut r),
        0x0003 => parse_set_value(&mut r),
        0x0004 => {
            let node = r.read_uid()?;
            Ok(IsaOp::Propagate { node })
        },
        0x0005 => parse_subscribe(&mut r),
        0x0006 => {
            let id = r.read_uid()?;
            Ok(IsaOp::DelNode { id })
        },
        0x0007 => {
            let id = r.read_uid()?;
            Ok(IsaOp::DelEdge { id })
        },
        0x0008 => {
            let node = r.read_uid()?;
            Ok(IsaOp::Demand { node })
        },
        0x0009 => parse_set_mode(&mut r),
        0x000A => {
            let node = r.read_uid()?;
            Ok(IsaOp::Reflect { node })
        },
        0x000B => parse_stabilize(&mut r),
        0x000C => parse_partition_create(&mut r),
        0x000D => parse_partition_bind(&mut r),
        0x000E => parse_set_partition_authority(&mut r),
        0x000F => parse_set_edge_label(&mut r),
        0x0010 => parse_set_stabilization_config(&mut r),
        0x0011 => parse_set_execution_policy(&mut r),
        0x0012 => parse_region_declare(&mut r),
        other => Err(DispatchError::UnknownOpcode(other)),
    }
}

} // verus!

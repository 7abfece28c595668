//! The session layer between the wire and the engine shards.
//!
//! ```text
//! wire record
//!   -> stream preamble: path and session
//!   -> record header: routing fields
//!   -> session lookup, tenant check
//!   -> replay suppression by stream sequence
//!   -> authority gate of the partition
//!   -> admission control
//!   -> engine shard
//! ```
//!
//! Authority is bounded downward: a tenant bounds its sessions, a session bounds what it does in
//! a partition, and a partition bounds the edges in it.

use vstd::prelude::*;

pub mod admission;
pub mod attr;
pub mod auth;
pub mod bytes;
pub mod decode;
pub mod dispatch;
pub mod dispatcher;
pub mod domain;
pub mod encode;
pub mod grammar;
pub mod idmap;
pub mod isa;
pub mod laws;
pub mod opcode;
pub mod profile;
pub mod recovery;
pub mod roundtrip;
pub mod runtime;
pub mod session;
pub mod sim;
pub mod telemetry;
pub mod text;
pub mod topology;


pub use admission::{AdmissionDecision, BackpressurePolicy, ShardPressure};
pub use auth::{
    AuthTableKey, AuthorityPolicy, DataplaneGateReason, GateResult, PartitionAuthRow,
    PartitionAuthTable,
};
pub use decode::{IngressError, RecordAction, StreamDecoder, StreamPreamble};
pub use dispatch::{parse_payload, DispatchError, EngineError};
pub use dispatcher::{
    DispatchOutcome, DispatchStep, Dispatcher, EnginePool, EngineReport, EngineStats, PendingApply,
};
pub use domain::{
    DomainRegistry, FabricScope, PartitionDomain, SessionDomain, SessionQuota, ShardDomain,
    ShardFabricAddr, TenantDomain, TenantQuota,
};
pub use encode::{encode_record, encode_stream_preamble, opcode_for, write_payload, RecordContext};
pub use opcode::OpcodeClass;
pub use profile::{ProfileError, ProfileId, SessionProfile, TrustLevel};
pub use recovery::{EngineOutcome, FailureAction, WorkCursor};
pub use runtime::{ParsedHeader, RejectionReason, RouteOutcome, SessionRuntime};
pub use session::{PathEntry, PathState, PathTable, SessionEntry, SessionError, SessionTable};
pub use telemetry::{TelemetryEvent, TelemetryNodeName, TelemetryPartition, PARTITION_TELEMETRY};
pub use topology::{TopologyNode, TopologyNodeName, TopologyPartition, PARTITION_TOPOLOGY};

use crate::idmap::Key;

verus! {

/// Identity of a tenant, as records carry it.
#[derive(Clone, Copy, Debug, PartialEq, Eq, Structural, Hash, Default)]
pub struct TenantId(pub u64);

impl Key for TenantId {
    open spec fn code(self) -> u128 {
        self.0 as u128
    }

    fn to_code(self) -> (code: u128) {
        self.0 as u128
    }

    fn from_code(code: u128) -> (key: Option<Self>) {
        if code <= u64::MAX as u128 {
            Some(TenantId(code as u64))
        } else {
            None
        }
    }

    proof fn code_injective(a: Self, b: Self) {
    }
}

/// Identity of a logical session. It survives a change of transport path and a reconnect.
#[derive(Clone, Copy, Debug, PartialEq, Eq, Structural, Hash, Default)]
pub struct SessionId(pub u64);

impl Key for SessionId {
    open spec fn code(self) -> u128 {
        self.0 as u128
    }

    fn to_code(self) -> (code: u128) {
        self.0 as u128
    }

    fn from_code(code: u128) -> (key: Option<Self>) {
        if code <= u64::MAX as u128 {
            Some(SessionId(code as u64))
        } else {
            None
        }
    }

    proof fn code_injective(a: Self, b: Self) {
    }
}

/// Identity of a transport path. It changes on a reconnect; the stream sequence goes on.
#[derive(Clone, Copy, Debug, PartialEq, Eq, Structural, Hash, Default)]
pub struct PathId(pub u64);

impl Key for PathId {
    open spec fn code(self) -> u128 {
        self.0 as u128
    }

    fn to_code(self) -> (code: u128) {
        self.0 as u128
    }

    fn from_code(code: u128) -> (key: Option<Self>) {
        if code <= u64::MAX as u128 {
            Some(PathId(code as u64))
        } else {
            None
        }
    }

    proof fn code_injective(a: Self, b: Self) {
    }
}

/// Identity of a partition, as records carry it.
#[derive(Clone, Copy, Debug, PartialEq, Eq, Structural, Hash, Default)]
pub struct WirePartitionId(pub u64);

impl Key for WirePartitionId {
    open spec fn code(self) -> u128 {
        self.0 as u128
    }

    fn to_code(self) -> (code: u128) {
        self.0 as u128
    }

    fn from_code(code: u128) -> (key: Option<Self>) {
        if code <= u64::MAX as u128 {
            Some(WirePartitionId(code as u64))
        } else {
            None
        }
    }

    proof fn code_injective(a: Self, b: Self) {
    }
}

/// Identity of an engine shard.
#[derive(Clone, Copy, Debug, PartialEq, Eq, Structural, Hash, Default)]
pub struct ShardId(pub u64);

impl Key for ShardId {
    open spec fn code(self) -> u128 {
        self.0 as u128
    }

    fn to_code(self) -> (code: u128) {
        self.0 as u128
    }

    fn from_code(code: u128) -> (key: Option<Self>) {
        if code <= u64::MAX as u128 {
            Some(ShardId(code as u64))
        } else {
            None
        }
    }

    proof fn code_injective(a: Self, b: Self) {
    }
}

} // verus!

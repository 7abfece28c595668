//! The ingress decoder of one stream.
//!
//! A stream opens with a preamble, which binds it to a path and a session. Each record header is
//! then held against the preamble and against what came before it in the stream.

use vstd::prelude::*;
use vstd::slice::{slice_subrange, slice_to_vec};

use crate::auth::{AuthorityPolicy, law_intersection_algebra};
use crate::bytes::{byte_range, le_value, lemma_byte_ranges, lemma_le_value_bound, read_le};
use crate::domain::{Domains, SessionDomain, effective_policy_of, tenant_policy};
use crate::idmap::IdMap;
use crate::{PathId, SessionId, TenantId, WirePartitionId};
use crate::opcode::{OpcodeClass, class_of};
use crate::profile::{
    ProfileError, ProfileView, SessionProfile, SignatureVerdict, TrustLevel, advisory_grant,
    law_grant_is_bounded, signature_verdict, signed_grant, trust_level_of,
};
use crate::runtime::{ParsedHeader, RuntimeView, SessionRuntime};

verus! {

/// The only ABI version that is understood.
pub const SUPPORTED_VERSION: u16 = 0x0003;

/// Length of a stream preamble in bytes.
pub const STREAM_HDR_LEN: usize = 32;

/// Length of a record header in bytes.
pub const RECORD_HDR_LEN: usize = 48;

/// The least length that a record can give: that of its header.
pub const MIN_RECORD_LEN: u32 = 48;

/// The opcode of a session profile.
pub const PROFILE_OPCODE: u16 = 0x0100;

/// Length of a version 1 profile without its signature.
pub const PROFILE_FIXED_LEN: usize = 49;

/// Length of a version 2 profile without its signature.
pub const PROFILE_FIXED_LEN_V2: usize = 73;

/// The preamble of a stream.
#[derive(Clone, Copy, Debug, PartialEq, Eq, Structural)]
pub struct StreamPreamble {
    pub abi_version: u16,
    pub flags: u16,
    pub feature_flags: u64,
    /// The path that the stream runs over.
    pub path_id: PathId,
    /// The session of every record in the stream.
    pub session_id: SessionId,
}

/// What is to be done with a record.
#[derive(Clone, Copy, Debug, PartialEq, Eq, Structural)]
pub enum RecordAction {
    /// Route the header.
    RouteReady(ParsedHeader),
    /// Skip so many bytes of payload: the opcode is not known.
    SkipPayload { header: ParsedHeader, skip_bytes: u32 },
    /// Read so many bytes of payload and process them as a session profile.
    ReadProfile { header: ParsedHeader, payload_len: u32 },
}

#[derive(Clone, Copy, Debug, PartialEq, Eq)]
pub enum IngressError {
    PreambleRequired,
    BadMagic([u8; 4]),
    UnsupportedVersion(u16),
    InvalidLength { length: u32 },
    InvalidOpcode,
    SessionIdMismatch { preamble: SessionId, header: SessionId },
    StreamSeqGap { session_id: SessionId, last_seen: u64, got: u64 },
    EpochRegression { session_id: SessionId, last_epoch: u64, got: u64 },
    ProfileTruncated { needed: usize, got: usize },
    UnknownTrustLevel(u8),
    UnknownProfileVersion(u16),
    ProfileVerification(ProfileError),
    UnknownSession(SessionId),
}

impl From<ProfileError> for IngressError {
    fn from(e: ProfileError) -> (error: Self) {
        IngressError::ProfileVerification(e)
    }
}

impl vstd::std_specs::convert::FromSpecImpl<ProfileError> for IngressError {
    open spec fn obeys_from_spec() -> bool {
        true
    }

    open spec fn from_spec(e: ProfileError) -> Self {
        IngressError::ProfileVerification(e)
    }
}

/// The number in the bytes from `from` up to `to`.
pub open spec fn field(s: Seq<u8>, from: int, to: int) -> nat {
    le_value(s.subrange(from, to))
}

/// The four bytes that open every stream.
pub open spec fn magic() -> Seq<u8> {
    seq![0x50u8, 0x47u8, 0x52u8, 0x53u8]
}

/// The preamble that 32 bytes hold.
pub open spec fn preamble_in(s: Seq<u8>) -> StreamPreamble {
    StreamPreamble {
        abi_version: field(s, 4, 6) as u16,
        flags: field(s, 6, 8) as u16,
        feature_flags: field(s, 8, 16) as u64,
        path_id: PathId(field(s, 16, 24) as u64),
        session_id: SessionId(field(s, 24, 32) as u64),
    }
}

/// The header that 48 bytes hold.
pub open spec fn header_in(s: Seq<u8>) -> ParsedHeader {
    ParsedHeader {
        opcode: field(s, 0, 2) as u16,
        flags: field(s, 2, 4) as u16,
        length: field(s, 4, 8) as u32,
        tenant_id: TenantId(field(s, 8, 16) as u64),
        session_id: SessionId(field(s, 16, 24) as u64),
        partition_id: WirePartitionId(field(s, 24, 32) as u64),
        causal_epoch: field(s, 32, 40) as u64,
        stream_seq: field(s, 40, 48) as u64,
    }
}

/// Why 32 bytes are no preamble.
pub enum PreambleError {
    BadMagic,
    UnsupportedVersion(u16),
}

/// The preamble that 32 bytes hold, if they hold one of the supported version.
pub open spec fn preamble_answer(s: Seq<u8>) -> Result<StreamPreamble, PreambleError> {
    if s.take(4) != magic() {
        Err(PreambleError::BadMagic)
    } else if preamble_in(s).abi_version != SUPPORTED_VERSION {
        Err(PreambleError::UnsupportedVersion(preamble_in(s).abi_version))
    } else {
        Ok(preamble_in(s))
    }
}

/// The decoder after 32 bytes of preamble. What is no preamble changes nothing.
pub open spec fn after_preamble(d: DecoderView, s: Seq<u8>) -> DecoderView {
    match preamble_answer(s) {
        Ok(preamble) => DecoderView { preamble: Some(preamble), ..d },
        Err(_) => d,
    }
}

/// The mathematical content of a [`StreamDecoder`].
pub struct DecoderView {
    pub preamble: Option<StreamPreamble>,
    /// The last stream sequence number of each session.
    pub seq_trace: Map<SessionId, u64>,
    /// The last causal epoch of each session.
    pub epoch_trace: Map<SessionId, u64>,
    pub gap_count: u64,
    pub epoch_regression_count: u64,
}

/// One more, as far as a `u64` counts.
pub open spec fn counted(n: u64) -> u64 {
    if n < u64::MAX {
        (n + 1) as u64
    } else {
        n
    }
}

/// The sequence number is no advance over the last one of the session.
pub open spec fn seq_stalls(d: DecoderView, h: ParsedHeader) -> bool {
    d.seq_trace.contains_key(h.session_id) && h.stream_seq <= d.seq_trace[h.session_id]
}

/// The causal epoch falls behind the last one of the session.
pub open spec fn epoch_regresses(d: DecoderView, h: ParsedHeader) -> bool {
    d.epoch_trace.contains_key(h.session_id) && h.causal_epoch < d.epoch_trace[h.session_id]
}

/// What is to be done with a record whose header passes.
pub open spec fn action_for(h: ParsedHeader) -> RecordAction {
    let payload = (h.length - MIN_RECORD_LEN) as u32;
    if h.opcode == PROFILE_OPCODE {
        RecordAction::ReadProfile { header: h, payload_len: payload }
    } else if class_of(h.opcode) == OpcodeClass::Unknown {
        RecordAction::SkipPayload { header: h, skip_bytes: payload }
    } else {
        RecordAction::RouteReady(h)
    }
}

/// What the decoder says to a record header: the first objection, or what is to be done.
pub open spec fn decoding(d: DecoderView, h: ParsedHeader) -> Result<RecordAction, IngressError> {
    match d.preamble {
        None => Err(IngressError::PreambleRequired),
        Some(preamble) => if h.length < MIN_RECORD_LEN {
            Err(IngressError::InvalidLength { length: h.length })
        } else if h.opcode == 0 {
            Err(IngressError::InvalidOpcode)
        } else if h.session_id != preamble.session_id {
            Err(
                IngressError::SessionIdMismatch {
                    preamble: preamble.session_id,
                    header: h.session_id,
                },
            )
        } else if seq_stalls(d, h) {
            Err(
                IngressError::StreamSeqGap {
                    session_id: h.session_id,
                    last_seen: d.seq_trace[h.session_id],
                    got: h.stream_seq,
                },
            )
        } else if epoch_regresses(d, h) {
            Err(
                IngressError::EpochRegression {
                    session_id: h.session_id,
                    last_epoch: d.epoch_trace[h.session_id],
                    got: h.causal_epoch,
                },
            )
        } else {
            Ok(action_for(h))
        },
    }
}

/// The decoder after a record header. A header with a stalled sequence number or a regressed
/// epoch is counted; one with a regressed epoch still advances the sequence.
pub open spec fn after_decoding(d: DecoderView, h: ParsedHeader) -> DecoderView {
    match decoding(d, h) {
        Ok(_) => DecoderView {
            seq_trace: d.seq_trace.insert(h.session_id, h.stream_seq),
            epoch_trace: d.epoch_trace.insert(h.session_id, h.causal_epoch),
            ..d
        },
        Err(IngressError::StreamSeqGap { .. }) => DecoderView {
            gap_count: counted(d.gap_count),
            ..d
        },
        Err(IngressError::EpochRegression { .. }) => DecoderView {
            seq_trace: d.seq_trace.insert(h.session_id, h.stream_seq),
            epoch_regression_count: counted(d.epoch_regression_count),
            ..d
        },
        Err(_) => d,
    }
}

/// The profile in a payload, where `masks` is the authority that it claims and `at` is where the
/// fields after the masks begin.
pub open spec fn profile_fields(
    s: Seq<u8>,
    trust_level: TrustLevel,
    policy: AuthorityPolicy,
    at: int,
) -> Result<ProfileView, IngressError> {
    let fixed = at + 34;
    if s.len() < fixed {
        Err(IngressError::ProfileTruncated { needed: fixed as usize, got: s.len() as usize })
    } else {
        let total = fixed + field(s, at + 32, at + 34);
        if s.len() < total {
            Err(IngressError::ProfileTruncated { needed: total as usize, got: s.len() as usize })
        } else {
            Ok(
                ProfileView {
                    profile_id: field(s, 0, 4) as u32,
                    profile_version: field(s, 4, 6) as u16,
                    trust_level,
                    policy,
                    issuer_domain: TenantId(field(s, at, at + 8) as u64),
                    session_id: SessionId(field(s, at + 8, at + 16) as u64),
                    generation: field(s, at + 16, at + 24) as u64,
                    expiry_epoch: field(s, at + 24, at + 32) as u64,
                    signature: s.subrange(fixed, total),
                },
            )
        }
    }
}

/// The authority that a version 1 profile claims: one mask for all axes.
pub open spec fn single_mask(s: Seq<u8>) -> AuthorityPolicy {
    let mask = field(s, 7, 15) as u64;
    AuthorityPolicy { assertion: mask, delegation: mask, observability: mask, disclosure: mask }
}

/// The authority that a version 2 profile claims: a mask for each axis.
pub open spec fn four_masks(s: Seq<u8>) -> AuthorityPolicy {
    AuthorityPolicy {
        assertion: field(s, 7, 15) as u64,
        delegation: field(s, 15, 23) as u64,
        observability: field(s, 23, 31) as u64,
        disclosure: field(s, 31, 39) as u64,
    }
}

/// The profile that a payload holds: identity, version, trust level, masks, issuer, session,
/// generation, expiry, and a signature behind its length.
pub open spec fn profile_in(s: Seq<u8>) -> Result<ProfileView, IngressError> {
    if s.len() < 7 {
        Err(IngressError::ProfileTruncated { needed: 7, got: s.len() as usize })
    } else {
        match trust_level_of(s[6]) {
            None => Err(IngressError::UnknownTrustLevel(s[6])),
            Some(trust_level) => if field(s, 4, 6) == 1 {
                profile_fields(s, trust_level, single_mask(s), 15)
            } else if field(s, 4, 6) == 2 {
                profile_fields(s, trust_level, four_masks(s), 39)
            } else {
                Err(IngressError::UnknownProfileVersion(field(s, 4, 6) as u16))
            },
        }
    }
}

/// What a profile is granted on the session of `h`, where its signature is found to be `verdict`.
pub open spec fn grant_for(
    domains: Domains,
    h: ParsedHeader,
    p: ProfileView,
    verdict: SignatureVerdict,
) -> Result<AuthorityPolicy, IngressError> {
    if !domains.sessions.contains_key(h.session_id) {
        Err(IngressError::UnknownSession(h.session_id))
    } else {
        let parent = tenant_policy(domains, domains.sessions[h.session_id].tenant_id);
        let grant = if p.trust_level == TrustLevel::Advisory {
            advisory_grant(p, parent, h.causal_epoch, 0, h.session_id)
        } else {
            signed_grant(p, parent, h.causal_epoch, 0, h.session_id, verdict)
        };
        match grant {
            Ok(policy) => Ok(policy),
            Err(e) => Err(IngressError::ProfileVerification(e)),
        }
    }
}

/// The domains after a session was granted `grant`.
pub open spec fn with_grant(
    domains: Domains,
    id: SessionId,
    grant: Result<AuthorityPolicy, IngressError>,
) -> Domains {
    match grant {
        Ok(policy) => Domains {
            sessions: domains.sessions.insert(
                id,
                SessionDomain { claimed_policy: policy, ..domains.sessions[id] },
            ),
            ..domains
        },
        Err(_) => domains,
    }
}

/// What a profile payload is granted on the session of `h`.
pub open spec fn payload_grant(rt: RuntimeView, h: ParsedHeader, payload: Seq<u8>) -> Result<
    AuthorityPolicy,
    IngressError,
> {
    match profile_in(payload) {
        Err(e) => Err(e),
        Ok(p) => grant_for(rt.domains, h, p, signature_verdict(p, rt.trust_store)),
    }
}

/// What a decoder remembers of its stream.
#[derive(Debug)]
pub struct StreamTrace {
    preamble: Option<StreamPreamble>,
    seq_trace: IdMap<SessionId, u64>,
    epoch_trace: IdMap<SessionId, u64>,
}

impl StreamTrace {
    pub closed spec fn preamble(&self) -> Option<StreamPreamble> {
        self.preamble
    }

    pub closed spec fn seq_trace(&self) -> Map<SessionId, u64> {
        self.seq_trace@
    }

    pub closed spec fn epoch_trace(&self) -> Map<SessionId, u64> {
        self.epoch_trace@
    }
}

/// The decoder of one stream. A new stream takes a new decoder.
#[derive(Debug)]
pub struct StreamDecoder {
    pub trace: StreamTrace,
    /// Records whose sequence number did not advance.
    pub gap_count: u64,
    /// Records whose causal epoch fell behind.
    pub epoch_regression_count: u64,
}

impl View for StreamDecoder {
    type V = DecoderView;

    open spec fn view(&self) -> DecoderView {
        DecoderView {
            preamble: self.trace.preamble(),
            seq_trace: self.trace.seq_trace(),
            epoch_trace: self.trace.epoch_trace(),
            gap_count: self.gap_count,
            epoch_regression_count: self.epoch_regression_count,
        }
    }
}

/// A decoder that has seen nothing.
pub open spec fn fresh_decoder() -> DecoderView {
    DecoderView {
        preamble: None,
        seq_trace: Map::empty(),
        epoch_trace: Map::empty(),
        gap_count: 0,
        epoch_regression_count: 0,
    }
}

impl Default for StreamDecoder {
    fn default() -> (decoder: Self)
        ensures
            decoder@ == fresh_decoder(),
    {
        StreamDecoder::new()
    }
}

fn read_field(buf: &[u8], at: usize, width: usize) -> (value: u64)
    requires
        at + width <= buf@.len(),
        width <= 8,
    ensures
        value == field(buf@, at as int, at + width),
        value < byte_range(width as nat),
{
    proof {
        lemma_le_value_bound(buf@.subrange(at as int, at + width));
    }
    read_le(buf, at, width)
}

impl StreamDecoder {
    pub fn new() -> (decoder: Self)
        ensures
            decoder@ == fresh_decoder(),
    {
        StreamDecoder {
            trace: StreamTrace {
                preamble: None,
                seq_trace: IdMap::new(),
                epoch_trace: IdMap::new(),
            },
            gap_count: 0,
            epoch_regression_count: 0,
        }
    }

    /// The preamble of the stream, once it was decoded.
    pub fn preamble(&self) -> (preamble: Option<&StreamPreamble>)
        ensures
            preamble == (match self@.preamble {
                Some(p) => Some(&p),
                None => None,
            }),
    {
        self.trace.preamble.as_ref()
    }

    /// Decodes the preamble of the stream.
    pub fn decode_preamble(&mut self, buf: &[u8; STREAM_HDR_LEN]) -> (r: Result<
        &StreamPreamble,
        IngressError,
    >)
        ensures
            match preamble_answer(buf@) {
                Ok(preamble) => r == Ok::<_, IngressError>(&preamble),
                Err(PreambleError::BadMagic) => r matches Err(IngressError::BadMagic(m)) && m@
                    == buf@.take(4),
                Err(PreambleError::UnsupportedVersion(v)) => r == Err::<&StreamPreamble, _>(
                    IngressError::UnsupportedVersion(v),
                ),
            },
            final(self)@ == after_preamble(old(self)@, buf@),
    {
        let opening: [u8; 4] = [buf[0], buf[1], buf[2], buf[3]];
        assert(opening@ =~= buf@.take(4));
        if opening[0] != 0x50 || opening[1] != 0x47 || opening[2] != 0x52 || opening[3] != 0x53 {
            return Err(IngressError::BadMagic(opening));
        }
        assert(buf@.take(4) =~= magic());
        proof {
            lemma_byte_ranges();
        }
        let s = buf.as_slice();
        let abi_version: u16 = read_field(s, 4, 2) as u16;
        if abi_version != SUPPORTED_VERSION {
            return Err(IngressError::UnsupportedVersion(abi_version));
        }
        let flags: u16 = read_field(s, 6, 2) as u16;
        let feature_flags: u64 = read_field(s, 8, 8);
        let path_id = PathId(read_field(s, 16, 8));
        let session_id = SessionId(read_field(s, 24, 8));
        let preamble = StreamPreamble { abi_version, flags, feature_flags, path_id, session_id };
        self.trace.preamble = Some(preamble);
        match &self.trace.preamble {
            Some(p) => Ok(p),
            None => Err(IngressError::PreambleRequired),
        }
    }

    /// Decodes a record header and holds it against the stream so far.
    ///
    /// The preamble must have come, the length must cover the header, the opcode must not be 0,
    /// the session must be the preamble's, the stream sequence must advance, and the causal epoch
    /// must not fall behind. The first objection is returned.
    ///
    /// The runtime has no say in it.
    pub fn decode_record(&mut self, buf: &[u8; RECORD_HDR_LEN], _runtime: &SessionRuntime) -> (r:
        Result<RecordAction, IngressError>)
        ensures
            r == decoding(old(self)@, header_in(buf@)),
            final(self)@ == after_decoding(old(self)@, header_in(buf@)),
    {
        let preamble_session = match &self.trace.preamble {
            Some(preamble) => preamble.session_id,
            None => return Err(IngressError::PreambleRequired),
        };
        proof {
            lemma_byte_ranges();
        }
        let s = buf.as_slice();
        let opcode: u16 = read_field(s, 0, 2) as u16;
        let flags: u16 = read_field(s, 2, 2) as u16;
        let length: u32 = read_field(s, 4, 4) as u32;
        let tenant_id = TenantId(read_field(s, 8, 8));
        let session_id = SessionId(read_field(s, 16, 8));
        let partition_id = WirePartitionId(read_field(s, 24, 8));
        let causal_epoch: u64 = read_field(s, 32, 8);
        let stream_seq: u64 = read_field(s, 40, 8);
        let header = ParsedHeader {
            opcode,
            flags,
            length,
            tenant_id,
            session_id,
            partition_id,
            causal_epoch,
            stream_seq,
        };
        assert(header == header_in(buf@));
        if length < MIN_RECORD_LEN {
            return Err(IngressError::InvalidLength { length });
        }
        if opcode == 0 {
            return Err(IngressError::InvalidOpcode);
        }
        if session_id != preamble_session {
            return Err(
                IngressError::SessionIdMismatch { preamble: preamble_session, header: session_id },
            );
        }
        if let Some(last) = self.trace.seq_trace.get(&session_id) {
            let last_seen: u64 = *last;
            if stream_seq <= last_seen {
                self.gap_count = self.gap_count.saturating_add(1);
                return Err(IngressError::StreamSeqGap { session_id, last_seen, got: stream_seq });
            }
        }
        let _ = self.trace.seq_trace.insert(session_id, stream_seq);
        if let Some(last) = self.trace.epoch_trace.get(&session_id) {
            let last_epoch: u64 = *last;
            if causal_epoch < last_epoch {
                self.epoch_regression_count = self.epoch_regression_count.saturating_add(1);
                return Err(
                    IngressError::EpochRegression { session_id, last_epoch, got: causal_epoch },
                );
            }
        }
        let _ = self.trace.epoch_trace.insert(session_id, causal_epoch);
        let payload_bytes: u32 = length - MIN_RECORD_LEN;
        if opcode == PROFILE_OPCODE {
            return Ok(RecordAction::ReadProfile { header, payload_len: payload_bytes });
        }
        if matches!(OpcodeClass::from_opcode(opcode), OpcodeClass::Unknown) {
            return Ok(RecordAction::SkipPayload { header, skip_bytes: payload_bytes });
        }
        Ok(RecordAction::RouteReady(header))
    }

    /// Processes the payload of a session profile: verifies it, with the issuer's key where it is
    /// signed, and makes what it is granted the session's claim.
    pub fn process_profile(
        &mut self,
        header: &ParsedHeader,
        payload: &[u8],
        runtime: &mut SessionRuntime,
    ) -> (r: Result<AuthorityPolicy, IngressError>)
        ensures
            final(self)@ == old(self)@,
            r == payload_grant(old(runtime)@, *header, payload@),
            final(runtime)@ == (RuntimeView {
                domains: with_grant(old(runtime)@.domains, header.session_id, r),
                ..old(runtime)@
            }),
    {
        let profile = parse_profile_payload(payload)?;
        let verdict = match profile.trust_level {
            TrustLevel::Advisory => SignatureVerdict::Invalid,
            _ => profile.check_signature(&runtime.trust_store),
        };
        apply_profile(header, &profile, verdict, runtime)
    }
}

/// Makes what a profile is granted the session's claim, where its signature was found to be
/// `verdict`. For an advisory profile the verdict does not count.
pub fn apply_profile(
    header: &ParsedHeader,
    profile: &SessionProfile,
    verdict: SignatureVerdict,
    runtime: &mut SessionRuntime,
) -> (r: Result<AuthorityPolicy, IngressError>)
    ensures
        r == grant_for(old(runtime)@.domains, *header, profile@, verdict),
        final(runtime)@ == (RuntimeView {
            domains: with_grant(old(runtime)@.domains, header.session_id, r),
            ..old(runtime)@
        }),
{
    let tenant_id = match runtime.domains.sessions.get(&header.session_id) {
        Some(session) => session.tenant_id,
        None => return Err(IngressError::UnknownSession(header.session_id)),
    };
    let parent_policy = runtime.domains.tenant_ceiling(tenant_id);
    let grant = match profile.trust_level {
        TrustLevel::Advisory => profile.verify_advisory(
            parent_policy,
            header.causal_epoch,
            0,
            header.session_id,
        ),
        _ => profile.verify_signed(
            parent_policy,
            header.causal_epoch,
            0,
            header.session_id,
            verdict,
        ),
    };
    match grant {
        Ok(policy) => {
            if let Some(session) = runtime.domains.sessions.get_mut(&header.session_id) {
                session.claimed_policy = policy;
            }
            Ok(policy)
        },
        Err(e) => Err(IngressError::ProfileVerification(e)),
    }
}

/// The result of parsing a profile, by its content.
pub open spec fn parsed_profile(r: Result<SessionProfile, IngressError>) -> Result<
    ProfileView,
    IngressError,
> {
    match r {
        Ok(p) => Ok(p@),
        Err(e) => Err(e),
    }
}

fn parse_profile_fields(
    payload: &[u8],
    trust_level: TrustLevel,
    policy: AuthorityPolicy,
    at: usize,
) -> (r: Result<SessionProfile, IngressError>)
    requires
        at == 15 || at == 39,
        payload@.len() >= 7,
    ensures
        parsed_profile(r) == profile_fields(payload@, trust_level, policy, at as int),
{
    let fixed: usize = at + 34;
    let got: usize = payload.len();
    if got < fixed {
        return Err(IngressError::ProfileTruncated { needed: fixed, got });
    }
    proof {
        lemma_byte_ranges();
    }
    let profile_id: u32 = read_field(payload, 0, 4) as u32;
    let profile_version: u16 = read_field(payload, 4, 2) as u16;
    let issuer_domain = TenantId(read_field(payload, at, 8));
    let session_id = SessionId(read_field(payload, at + 8, 8));
    let generation: u64 = read_field(payload, at + 16, 8);
    let expiry_epoch: u64 = read_field(payload, at + 24, 8);
    let sig_len: usize = read_field(payload, at + 32, 2) as usize;
    let total: usize = fixed + sig_len;
    if got < total {
        return Err(IngressError::ProfileTruncated { needed: total, got });
    }
    let signature = slice_to_vec(slice_subrange(payload, fixed, total));
    Ok(
        SessionProfile {
            profile_id,
            profile_version,
            trust_level,
            assertion_mask: policy.assertion,
            delegation_mask: policy.delegation,
            observability_mask: policy.observability,
            disclosure_mask: policy.disclosure,
            issuer_domain,
            session_id,
            generation,
            expiry_epoch,
            signature,
        },
    )
}

/// Parses the payload of a session profile, of version 1 or 2.
///
/// A version 1 profile has one mask, which counts for all four axes; a version 2 profile has
/// one for each.
pub fn parse_profile_payload(payload: &[u8]) -> (r: Result<SessionProfile, IngressError>)
    ensures
        parsed_profile(r) == profile_in(payload@),
{
    let got: usize = payload.len();
    if got < 7 {
        return Err(IngressError::ProfileTruncated { needed: 7, got });
    }
    proof {
        lemma_byte_ranges();
    }
    let profile_version: u16 = read_field(payload, 4, 2) as u16;
    let trust_byte: u8 = payload[6];
    let trust_level = match TrustLevel::from_u8(trust_byte) {
        Some(level) => level,
        None => return Err(IngressError::UnknownTrustLevel(trust_byte)),
    };
    match profile_version {
        1 => {
            if got < PROFILE_FIXED_LEN {
                return Err(IngressError::ProfileTruncated { needed: PROFILE_FIXED_LEN, got });
            }
            let mask: u64 = read_field(payload, 7, 8);
            let policy = AuthorityPolicy {
                assertion: mask,
                delegation: mask,
                observability: mask,
                disclosure: mask,
            };
            parse_profile_fields(payload, trust_level, policy, 15)
        },
        2 => {
            if got < PROFILE_FIXED_LEN_V2 {
                return Err(IngressError::ProfileTruncated { needed: PROFILE_FIXED_LEN_V2, got });
            }
            let policy = AuthorityPolicy {
                assertion: read_field(payload, 7, 8),
                delegation: read_field(payload, 15, 8),
                observability: read_field(payload, 23, 8),
                disclosure: read_field(payload, 31, 8),
            };
            parse_profile_fields(payload, trust_level, policy, 39)
        },
        other => Err(IngressError::UnknownProfileVersion(other)),
    }
}

// ── What holds of a stream as a whole ────────────────────────────────────────

/// Nothing is accepted before the preamble.
pub proof fn law_preamble_comes_first(d: DecoderView, h: ParsedHeader)
    requires
        d.preamble is None,
    ensures
        decoding(d, h) == Err::<RecordAction, IngressError>(IngressError::PreambleRequired),
        after_decoding(d, h) == d,
{
}

/// A header that was accepted is not accepted a second time: its sequence number no longer
/// advances.
pub proof fn law_no_record_is_decoded_twice(d: DecoderView, h: ParsedHeader)
    requires
        decoding(d, h) is Ok,
    ensures
        decoding(after_decoding(d, h), h) == Err::<RecordAction, IngressError>(
            IngressError::StreamSeqGap {
                session_id: h.session_id,
                last_seen: h.stream_seq,
                got: h.stream_seq,
            },
        ),
{
}

/// Accepted headers of a stream have strictly ascending sequence numbers and causal epochs that
/// never fall, and all belong to the preamble's session.
pub proof fn law_stream_order(d: DecoderView, h: ParsedHeader, next: ParsedHeader)
    requires
        decoding(d, h) is Ok,
        decoding(after_decoding(d, h), next) is Ok,
    ensures
        next.session_id == h.session_id,
        next.stream_seq > h.stream_seq,
        next.causal_epoch >= h.causal_epoch,
{
}

/// A header with a regressed epoch uses up its sequence number all the same.
pub proof fn law_regressed_epoch_uses_the_sequence(d: DecoderView, h: ParsedHeader)
    requires
        decoding(d, h) matches Err(IngressError::EpochRegression { .. }),
    ensures
        seq_stalls(after_decoding(d, h), h),
        after_decoding(d, h).epoch_trace == d.epoch_trace,
{
}

/// The counters count objections and nothing else.
pub proof fn law_objections_are_counted(d: DecoderView, h: ParsedHeader)
    ensures
        after_decoding(d, h).gap_count == (if decoding(d, h) matches Err(
            IngressError::StreamSeqGap { .. },
        ) {
            counted(d.gap_count)
        } else {
            d.gap_count
        }),
        after_decoding(d, h).epoch_regression_count == (if decoding(d, h) matches Err(
            IngressError::EpochRegression { .. },
        ) {
            counted(d.epoch_regression_count)
        } else {
            d.epoch_regression_count
        }),
{
}

/// What a session holds after a profile is bounded by its tenant, and a profile that fails
/// changes nothing.
pub proof fn law_profile_scopes_the_session(
    domains: Domains,
    h: ParsedHeader,
    p: ProfileView,
    verdict: SignatureVerdict,
)
    ensures
        ({
            let grant = grant_for(domains, h, p, verdict);
            let after = with_grant(domains, h.session_id, grant);
            match grant {
                Ok(policy) => {
                    &&& policy.is_bounded_by(
                        tenant_policy(domains, domains.sessions[h.session_id].tenant_id),
                    )
                    &&& policy.is_bounded_by(p.policy)
                    &&& effective_policy_of(after, h.session_id) == Some(policy)
                },
                Err(_) => after == domains,
            }
        }),
{
    let parent = tenant_policy(domains, domains.sessions[h.session_id].tenant_id);
    law_grant_is_bounded(p, parent, h.causal_epoch, 0, h.session_id, verdict);
}

/// A profile under a tenant that is not registered is granted nothing.
pub proof fn law_unknown_tenant_grants_nothing(
    domains: Domains,
    h: ParsedHeader,
    p: ProfileView,
    verdict: SignatureVerdict,
)
    requires
        domains.sessions.contains_key(h.session_id),
        !domains.tenants.contains_key(domains.sessions[h.session_id].tenant_id),
    ensures
        grant_for(domains, h, p, verdict) matches Ok(policy) ==> policy == AuthorityPolicy::none(),
{
    law_intersection_algebra(p.policy, p.policy, p.policy);
}

// ── What holds of every history of a stream ──────────────────────────────────

/// A call of a decoder: with the bytes of a preamble, or with a record header.
pub enum StreamCall {
    Preamble(Seq<u8>),
    Record(ParsedHeader),
}

pub open spec fn after_call(d: DecoderView, call: StreamCall) -> DecoderView {
    match call {
        StreamCall::Preamble(s) => after_preamble(d, s),
        StreamCall::Record(h) => after_decoding(d, h),
    }
}

/// The decoder after several calls, one after the other.
pub open spec fn after_calls(d: DecoderView, calls: Seq<StreamCall>) -> DecoderView
    decreases calls.len(),
{
    if calls.len() == 0 {
        d
    } else {
        after_call(after_calls(d, calls.drop_last()), calls.last())
    }
}

/// What the `i`-th call was answered, where it was one with a record header.
pub open spec fn answer(d: DecoderView, calls: Seq<StreamCall>, i: int) -> Option<
    Result<RecordAction, IngressError>,
> {
    match calls[i] {
        StreamCall::Preamble(_) => None,
        StreamCall::Record(h) => Some(decoding(after_calls(d, calls.take(i)), h)),
    }
}

/// The `i`-th call was one with the record header `h`, which was accepted.
pub open spec fn accepted(d: DecoderView, calls: Seq<StreamCall>, i: int, h: ParsedHeader) -> bool {
    calls[i] == StreamCall::Record(h) && answer(d, calls, i) matches Some(Ok(_))
}

/// How many of the calls were answered with a stalled sequence number.
pub open spec fn gaps(d: DecoderView, calls: Seq<StreamCall>) -> nat
    decreases calls.len(),
{
    if calls.len() == 0 {
        0
    } else {
        let earlier = gaps(d, calls.drop_last());
        match answer(d, calls, calls.len() - 1) {
            Some(Err(IngressError::StreamSeqGap { .. })) => earlier + 1,
            _ => earlier,
        }
    }
}

/// How many of the calls were answered with a regressed epoch.
pub open spec fn regressions(d: DecoderView, calls: Seq<StreamCall>) -> nat
    decreases calls.len(),
{
    if calls.len() == 0 {
        0
    } else {
        let earlier = regressions(d, calls.drop_last());
        match answer(d, calls, calls.len() - 1) {
            Some(Err(IngressError::EpochRegression { .. })) => earlier + 1,
            _ => earlier,
        }
    }
}

/// Both traces of a session are at least at the header's numbers.
spec fn traced(d: DecoderView, h: ParsedHeader) -> bool {
    &&& d.seq_trace.contains_key(h.session_id) && d.seq_trace[h.session_id] >= h.stream_seq
    &&& d.epoch_trace.contains_key(h.session_id) && d.epoch_trace[h.session_id] >= h.causal_epoch
}

proof fn lemma_after_calls_step(d: DecoderView, calls: Seq<StreamCall>, n: int)
    requires
        0 <= n < calls.len(),
    ensures
        after_calls(d, calls.take(n + 1)) == after_call(after_calls(d, calls.take(n)), calls[n]),
{
    assert(calls.take(n + 1).drop_last() =~= calls.take(n));
}

proof fn lemma_accepted_is_traced(
    d: DecoderView,
    calls: Seq<StreamCall>,
    i: int,
    h: ParsedHeader,
    n: int,
)
    requires
        0 <= i < n <= calls.len(),
        accepted(d, calls, i, h),
    ensures
        traced(after_calls(d, calls.take(n)), h),
    decreases n,
{
    lemma_after_calls_step(d, calls, n - 1);
    if i < n - 1 {
        lemma_accepted_is_traced(d, calls, i, h, n - 1);
    }
}

/// In every history of a stream, whatever was refused in between, the accepted records of a
/// session have strictly ascending sequence numbers, and causal epochs that never fall.
pub proof fn law_stream_order_over_history(
    d: DecoderView,
    calls: Seq<StreamCall>,
    i: int,
    h: ParsedHeader,
    j: int,
    later: ParsedHeader,
)
    requires
        0 <= i < j < calls.len(),
        accepted(d, calls, i, h),
        accepted(d, calls, j, later),
        h.session_id == later.session_id,
    ensures
        h.stream_seq < later.stream_seq,
        h.causal_epoch <= later.causal_epoch,
{
    lemma_accepted_is_traced(d, calls, i, h, j);
}

/// `n` more, as far as a `u64` counts.
pub open spec fn counted_up(from: u64, n: nat) -> u64 {
    if from + n <= u64::MAX {
        (from + n) as u64
    } else {
        u64::MAX
    }
}

/// In every history of a stream the two counters have gone up by the number of records that were
/// refused for a stalled sequence number and for a regressed epoch, as far as they count.
pub proof fn law_objections_are_counted_over_history(d: DecoderView, calls: Seq<StreamCall>)
    ensures
        after_calls(d, calls).gap_count == counted_up(d.gap_count, gaps(d, calls)),
        after_calls(d, calls).epoch_regression_count == counted_up(
            d.epoch_regression_count,
            regressions(d, calls),
        ),
        gaps(d, calls) + regressions(d, calls) <= calls.len(),
    decreases calls.len(),
{
    if calls.len() > 0 {
        law_objections_are_counted_over_history(d, calls.drop_last());
        assert(calls.take(calls.len() - 1) =~= calls.drop_last());
    }
}

} // verus!

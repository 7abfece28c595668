use pgress_session::auth::AuthorityPolicy;
use pgress_session::decode::{
    IngressError, PROFILE_OPCODE, RecordAction, StreamDecoder, parse_profile_payload,
};
use pgress_session::domain::{SessionDomain, SessionQuota, TenantDomain, TenantQuota};
use pgress_session::isa::{AuthorityMode, CapabilityBits};
use pgress_session::{PathId, SessionId, TenantId, WirePartitionId};
use pgress_session::runtime::{ParsedHeader, SessionRuntime};
use pgress_session::session::{PathEntry, PathState, SessionEntry};

// ── Helpers ───────────────────────────────────────────────────────────────

fn valid_preamble() -> [u8; 32] {
    let mut buf = [0u8; 32];
    buf[0..4].copy_from_slice(b"PGRS");
    buf[4..6].copy_from_slice(&0x0003u16.to_le_bytes());   // abi_version
    // flags (6–7), feature_flags (8–15) = 0
    buf[16..24].copy_from_slice(&42u64.to_le_bytes());     // path_id
    buf[24..32].copy_from_slice(&10u64.to_le_bytes());     // session_id
    buf
}

fn valid_header(opcode: u16, session_id: u64, stream_seq: u64, causal_epoch: u64) -> [u8; 48] {
    let mut buf = [0u8; 48];
    buf[0..2].copy_from_slice(&opcode.to_le_bytes());
    // flags[2..4] = 0
    buf[4..8].copy_from_slice(&48u32.to_le_bytes());       // length = exactly 48
    // tenant_id[8..16] = 0
    buf[16..24].copy_from_slice(&session_id.to_le_bytes());
    // partition_id[24..32] = 0
    buf[32..40].copy_from_slice(&causal_epoch.to_le_bytes());
    buf[40..48].copy_from_slice(&stream_seq.to_le_bytes());
    buf
}

fn minimal_runtime() -> SessionRuntime {
    let mut rt = SessionRuntime::new();
    rt.domains.tenants.insert(TenantId(1), TenantDomain { capabilities: CapabilityBits::all(),
        id: TenantId(1), policy: AuthorityPolicy::all(), quota: TenantQuota::default(),
    });
    rt.domains.sessions.insert(SessionId(10), SessionDomain { claimed_caps: CapabilityBits::all(),
        id: SessionId(10), tenant_id: TenantId(1),
        claimed_policy: AuthorityPolicy::all(), auth_mode: AuthorityMode::Advisory,
        quota: SessionQuota::default(),
    });
    rt.sessions.create(SessionEntry {
        session_id:                   SessionId(10),
        tenant_id:                    TenantId(1),
        active_path_id:               Some(PathId(42)),
        prev_path_id:                 None,
        stream_seq_floor:             0,
        auth_mode:                    AuthorityMode::Advisory,
        last_active_causal_epoch:     0,
        consecutive_quiescent_epochs: 0,
    });
    rt.paths.create(PathEntry {
        path_id: PathId(42), session_id: SessionId(10),
        last_ack_stream_seq: 0, state: PathState::Active,
    });
    rt
}

// ── Preamble tests ────────────────────────────────────────────────────────

#[test]
fn valid_preamble_accepted() {
    let mut dec = StreamDecoder::new();
    let preamble = dec.decode_preamble(&valid_preamble()).unwrap();
    assert_eq!(preamble.abi_version, 0x0003);
    assert_eq!(preamble.session_id, SessionId(10));
    assert_eq!(preamble.path_id,    PathId(42));
}

#[test]
fn bad_magic_rejected() {
    let mut buf = valid_preamble();
    buf[0] = b'X';
    let err = StreamDecoder::new().decode_preamble(&buf).unwrap_err();
    assert!(matches!(err, IngressError::BadMagic(_)));
}

#[test]
fn unsupported_version_rejected() {
    let mut buf = valid_preamble();
    buf[4..6].copy_from_slice(&0x0001u16.to_le_bytes());
    let err = StreamDecoder::new().decode_preamble(&buf).unwrap_err();
    assert!(matches!(err, IngressError::UnsupportedVersion(0x0001)));
}

// ── Record header tests ───────────────────────────────────────────────────

#[test]
fn decode_without_preamble_returns_error() {
    let mut dec = StreamDecoder::new();
    let rt = minimal_runtime();
    let hdr = valid_header(0x0003, 10, 1, 0);
    assert!(matches!(dec.decode_record(&hdr, &rt), Err(IngressError::PreambleRequired)));
}

#[test]
fn valid_record_returns_route_ready() {
    let mut dec = StreamDecoder::new();
    let rt  = minimal_runtime();
    dec.decode_preamble(&valid_preamble()).unwrap();
    let hdr = valid_header(0x0003, 10, 1, 0);
    assert!(matches!(dec.decode_record(&hdr, &rt), Ok(RecordAction::RouteReady(_))));
}

#[test]
fn length_below_minimum_rejected() {
    let mut dec = StreamDecoder::new();
    let rt  = minimal_runtime();
    dec.decode_preamble(&valid_preamble()).unwrap();
    let mut buf = valid_header(0x0003, 10, 1, 0);
    buf[4..8].copy_from_slice(&10u32.to_le_bytes()); // length = 10 < 48
    assert!(matches!(dec.decode_record(&buf, &rt), Err(IngressError::InvalidLength { length: 10 })));
}

#[test]
fn zero_opcode_rejected() {
    let mut dec = StreamDecoder::new();
    let rt  = minimal_runtime();
    dec.decode_preamble(&valid_preamble()).unwrap();
    let hdr = valid_header(0x0000, 10, 1, 0);
    assert!(matches!(dec.decode_record(&hdr, &rt), Err(IngressError::InvalidOpcode)));
}

#[test]
fn session_id_mismatch_rejected() {
    let mut dec = StreamDecoder::new();
    let rt  = minimal_runtime();
    dec.decode_preamble(&valid_preamble()).unwrap();   // preamble session_id = 10
    let hdr = valid_header(0x0003, 99, 1, 0);          // header session_id = 99
    assert!(matches!(dec.decode_record(&hdr, &rt), Err(IngressError::SessionIdMismatch { .. })));
}

#[test]
fn unknown_opcode_returns_skip_payload() {
    let mut dec = StreamDecoder::new();
    let rt  = minimal_runtime();
    dec.decode_preamble(&valid_preamble()).unwrap();
    let mut buf = valid_header(0xDEAD, 10, 1, 0);
    // length = 48 + 16 payload bytes
    buf[4..8].copy_from_slice(&64u32.to_le_bytes());
    match dec.decode_record(&buf, &rt).unwrap() {
        RecordAction::SkipPayload { skip_bytes, .. } => assert_eq!(skip_bytes, 16),
        other => panic!("expected SkipPayload, got {:?}", other),
    }
}

#[test]
fn session_profile_opcode_returns_read_profile() {
    let mut dec = StreamDecoder::new();
    let rt  = minimal_runtime();
    dec.decode_preamble(&valid_preamble()).unwrap();
    let mut buf = valid_header(PROFILE_OPCODE, 10, 1, 0);
    buf[4..8].copy_from_slice(&(48u32 + 49).to_le_bytes()); // 48 + min profile payload
    match dec.decode_record(&buf, &rt).unwrap() {
        RecordAction::ReadProfile { payload_len, .. } => assert_eq!(payload_len, 49),
        other => panic!("expected ReadProfile, got {:?}", other),
    }
}

// ── Stream ordering tests ─────────────────────────────────────────────────

#[test]
fn stream_seq_must_advance() {
    let mut dec = StreamDecoder::new();
    let rt  = minimal_runtime();
    dec.decode_preamble(&valid_preamble()).unwrap();
    dec.decode_record(&valid_header(0x0003, 10, 5, 0), &rt).unwrap();
    let err = dec.decode_record(&valid_header(0x0003, 10, 5, 1), &rt).unwrap_err();
    assert!(matches!(err, IngressError::StreamSeqGap { last_seen: 5, got: 5, .. }));
    assert_eq!(dec.gap_count, 1);
}

#[test]
fn stream_seq_regression_is_gap() {
    let mut dec = StreamDecoder::new();
    let rt  = minimal_runtime();
    dec.decode_preamble(&valid_preamble()).unwrap();
    dec.decode_record(&valid_header(0x0003, 10, 10, 0), &rt).unwrap();
    let err = dec.decode_record(&valid_header(0x0003, 10, 3, 1), &rt).unwrap_err();
    assert!(matches!(err, IngressError::StreamSeqGap { last_seen: 10, got: 3, .. }));
}

#[test]
fn non_contiguous_stream_seq_increments_gap_count() {
    let mut dec = StreamDecoder::new();
    let rt  = minimal_runtime();
    dec.decode_preamble(&valid_preamble()).unwrap();
    dec.decode_record(&valid_header(0x0003, 10, 1, 0), &rt).unwrap();
    // seq 2 is missing; seq 3 is still valid (strictly greater)
    dec.decode_record(&valid_header(0x0003, 10, 3, 1), &rt).unwrap();
    // gap_count only increments on regression, not on skip-forward
    assert_eq!(dec.gap_count, 0);
}

#[test]
fn causal_epoch_regression_rejected() {
    let mut dec = StreamDecoder::new();
    let rt  = minimal_runtime();
    dec.decode_preamble(&valid_preamble()).unwrap();
    dec.decode_record(&valid_header(0x0003, 10, 1, 10), &rt).unwrap();
    let err = dec.decode_record(&valid_header(0x0003, 10, 2, 5), &rt).unwrap_err();
    assert!(matches!(err, IngressError::EpochRegression { last_epoch: 10, got: 5, .. }));
    assert_eq!(dec.epoch_regression_count, 1);
}

#[test]
fn causal_epoch_stable_is_allowed() {
    let mut dec = StreamDecoder::new();
    let rt  = minimal_runtime();
    dec.decode_preamble(&valid_preamble()).unwrap();
    dec.decode_record(&valid_header(0x0003, 10, 1, 7), &rt).unwrap();
    // Same epoch on next record: non-decreasing, so allowed
    assert!(dec.decode_record(&valid_header(0x0003, 10, 2, 7), &rt).is_ok());
}

// ── Profile payload parsing ───────────────────────────────────────────────

fn advisory_payload(session_id: u64, caps: u64) -> Vec<u8> {
    let mut p = vec![0u8; 49];
    p[0..4].copy_from_slice(&1u32.to_le_bytes());      // profile_id
    p[4..6].copy_from_slice(&1u16.to_le_bytes());      // profile_version
    p[6] = 0x01;                                        // trust_level = Advisory
    p[7..15].copy_from_slice(&caps.to_le_bytes());     // capability_mask
    // issuer_domain = 0 (bytes 15–22)
    p[23..31].copy_from_slice(&session_id.to_le_bytes()); // session_id
    // generation = 0, expiry = u64::MAX
    p[39..47].copy_from_slice(&u64::MAX.to_le_bytes());   // expiry_epoch
    // sig_len = 0 (bytes 47–48 already 0)
    p
}

#[test]
fn profile_truncated_payload_rejected() {
    // 10 bytes — not even enough to read profile_id + profile_version + trust_level (7 bytes
    // minimum). The parser catches this before reaching any version branch.
    let err_short = parse_profile_payload(&[0u8; 6]).unwrap_err();
    assert!(matches!(err_short, IngressError::ProfileTruncated { needed: 7, .. }),
        "6-byte payload must be rejected before version branch; got: {:?}", err_short);

    // 20 bytes — valid v1 header (profile_version=1, trust_level=Advisory) but
    // shorter than the 49-byte v1 fixed length. Must be rejected with ProfileTruncated.
    let mut p20 = [0u8; 20];
    p20[4..6].copy_from_slice(&1u16.to_le_bytes()); // profile_version = 1
    p20[6] = 0x01;                                   // trust_level = Advisory
    let err_v1 = parse_profile_payload(&p20).unwrap_err();
    assert!(matches!(err_v1, IngressError::ProfileTruncated { needed: 49, .. }),
        "20-byte v1 payload must be ProfileTruncated {{ needed: 49 }}; got: {:?}", err_v1);

    // 30 bytes — valid v2 header (profile_version=2, trust_level=Advisory) but
    // shorter than the 73-byte v2 fixed length.
    let mut p30 = [0u8; 30];
    p30[4..6].copy_from_slice(&2u16.to_le_bytes()); // profile_version = 2
    p30[6] = 0x01;                                   // trust_level = Advisory
    let err_v2 = parse_profile_payload(&p30).unwrap_err();
    assert!(matches!(err_v2, IngressError::ProfileTruncated { needed: 73, .. }),
        "30-byte v2 payload must be ProfileTruncated {{ needed: 73 }}; got: {:?}", err_v2);
}

#[test]
fn profile_unknown_trust_level_rejected() {
    let mut p = advisory_payload(10, u64::MAX);
    p[6] = 0xFF;
    let err = parse_profile_payload(&p).unwrap_err();
    assert!(matches!(err, IngressError::UnknownTrustLevel(0xFF)));
}

#[test]
fn process_profile_clips_caps_to_parent() {
    let mut dec = StreamDecoder::new();
    let mut rt  = minimal_runtime();
    // Tenant only has READ_ONLY policy (observability + disclosure, no assertion/delegation)
    rt.domains.tenants.get_mut(&TenantId(1)).unwrap().policy = AuthorityPolicy::read_only();

    dec.decode_preamble(&valid_preamble()).unwrap();
    let hdr = ParsedHeader {
        opcode: PROFILE_OPCODE, flags: 0, length: 48 + 49,
        tenant_id: TenantId(0), session_id: SessionId(10),
        partition_id: WirePartitionId(0), causal_epoch: 0, stream_seq: 1,
    };

    // Profile claims ALL — should be clipped to READ_ONLY
    let payload = advisory_payload(10, u64::MAX);
    let effective = dec.process_profile(&hdr, &payload, &mut rt).unwrap();
    assert_eq!(effective, AuthorityPolicy::read_only());
    // Verify the session's claimed_policy was updated
    assert_eq!(rt.domains.sessions.get(&SessionId(10)).unwrap().claimed_policy, AuthorityPolicy::read_only());
}

#[test]
fn process_profile_unknown_session_returns_error() {
    let mut dec = StreamDecoder::new();
    let mut rt  = minimal_runtime();
    dec.decode_preamble(&valid_preamble()).unwrap();
    let hdr = ParsedHeader {
        opcode: PROFILE_OPCODE, flags: 0, length: 48 + 49,
        tenant_id: TenantId(0), session_id: SessionId(999), // unknown
        partition_id: WirePartitionId(0), causal_epoch: 0, stream_seq: 1,
    };
    let payload = advisory_payload(999, u64::MAX);
    let err = dec.process_profile(&hdr, &payload, &mut rt).unwrap_err();
    assert!(matches!(err, IngressError::UnknownSession(SessionId(999))));
}

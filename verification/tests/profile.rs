use ed25519_dalek::{Signature, Signer, SigningKey};
use pgress_session::auth::AuthorityPolicy;
use pgress_session::{SessionId, TenantId};
use pgress_session::profile::{IssuerKey, ProfileError, SessionProfile, TrustLevel, TrustStore};

fn advisory(
    assertion: u64, delegation: u64, observability: u64, disclosure: u64,
    generation: u64, expiry: u64, session_id: u64,
) -> SessionProfile {
    SessionProfile {
        profile_id:         1,
        profile_version:    2,
        trust_level:        TrustLevel::Advisory,
        assertion_mask:     assertion,
        delegation_mask:    delegation,
        observability_mask: observability,
        disclosure_mask:    disclosure,
        issuer_domain:      TenantId(1),
        session_id:         SessionId(session_id),
        generation,
        expiry_epoch:       expiry,
        signature:          vec![],
    }
}

fn all_advisory(session_id: u64) -> SessionProfile {
    advisory(u64::MAX, u64::MAX, u64::MAX, u64::MAX, 0, u64::MAX, session_id)
}

#[test]
fn advisory_clips_to_parent_ceiling() {
    let profile = all_advisory(42);
    let parent  = AuthorityPolicy {
        assertion: 0xFF, delegation: 0x00, observability: 0xFF, disclosure: 0x00
    };
    let eff = profile.verify_advisory(parent, 0, 0, SessionId(42)).unwrap();
    assert_eq!(eff, parent);
}

#[test]
fn advisory_session_id_must_match() {
    let profile = all_advisory(42);
    let err = profile.verify_advisory(AuthorityPolicy::all(), 0, 0, SessionId(99)).unwrap_err();
    assert!(matches!(err, ProfileError::SessionMismatch { .. }));
}

#[test]
fn advisory_expired_profile_rejected() {
    let profile = advisory(0xFF, 0, 0xFF, 0, 0, 100, 1); // expires at epoch 100
    let err = profile.verify_advisory(AuthorityPolicy::all(), 101, 0, SessionId(1)).unwrap_err();
    assert!(matches!(err, ProfileError::Expired { .. }));
}

#[test]
fn advisory_not_yet_expired() {
    let profile = advisory(0xFF, 0, 0xFF, 0, 0, 100, 1);
    assert!(profile.verify_advisory(AuthorityPolicy::all(), 99, 0, SessionId(1)).is_ok());
}

#[test]
fn advisory_never_expires_when_max() {
    let profile = all_advisory(5);
    assert!(profile.verify_advisory(AuthorityPolicy::all(), u64::MAX - 1, 0, SessionId(5)).is_ok());
}

#[test]
fn advisory_revoked_generation() {
    let profile = advisory(0xFF, 0, 0xFF, 0, 3, u64::MAX, 7); // generation=3
    let err = profile.verify_advisory(AuthorityPolicy::all(), 0, 5, SessionId(7)).unwrap_err();
    assert!(matches!(err, ProfileError::GenerationRevoked { .. }));
}

#[test]
fn advisory_valid_generation() {
    let profile = advisory(0xFF, 0, 0xFF, 0, 5, u64::MAX, 7); // generation=5
    assert!(profile.verify_advisory(AuthorityPolicy::all(), 0, 5, SessionId(7)).is_ok());
}

#[test]
fn advisory_wrong_trust_level_rejected() {
    let mut profile = all_advisory(1);
    profile.trust_level = TrustLevel::Asserted;
    let err = profile.verify_advisory(AuthorityPolicy::all(), 0, 0, SessionId(1)).unwrap_err();
    assert!(matches!(err, ProfileError::WrongTrustLevel));
}

// ── Asserted ──────────────────────────────────────────────────────────────

fn make_signing_key(seed: u64) -> SigningKey {
    let mut bytes = [0u8; 32];
    bytes[0..8].copy_from_slice(&seed.to_le_bytes());
    SigningKey::from_bytes(&bytes)
}

fn sign_profile(profile: &mut SessionProfile, signing_key: &SigningKey) {
    let payload = profile.canonical_signing_payload();
    let sig: Signature = signing_key.sign(&payload);
    profile.signature = sig.to_bytes().to_vec();
    profile.trust_level = TrustLevel::Asserted;
}

fn make_trust_store(tenant_id: TenantId, signing_key: &SigningKey) -> TrustStore {
    let mut store = TrustStore::new();
    store.insert(tenant_id, IssuerKey(signing_key.verifying_key().to_bytes()));
    store
}

#[test]
fn asserted_valid_signature_accepted() {
    let signing_key = make_signing_key(0xDEAD_BEEF);
    let mut profile = all_advisory(10);
    profile.issuer_domain = TenantId(99);
    sign_profile(&mut profile, &signing_key);

    let trust_store = make_trust_store(TenantId(99), &signing_key);
    let eff = profile.verify_asserted(
        AuthorityPolicy::all(), 0, 0, SessionId(10), &trust_store
    ).unwrap();
    assert_eq!(eff, AuthorityPolicy::all());
}

#[test]
fn asserted_clips_to_parent_ceiling() {
    let signing_key = make_signing_key(0x1234);
    let mut profile = all_advisory(10);
    profile.issuer_domain = TenantId(5);
    sign_profile(&mut profile, &signing_key);

    let parent = AuthorityPolicy { assertion: 0x0F, delegation: 0, observability: 0x0F, disclosure: 0 };
    let trust_store = make_trust_store(TenantId(5), &signing_key);
    let eff = profile.verify_asserted(parent, 0, 0, SessionId(10), &trust_store).unwrap();
    assert_eq!(eff, parent);
}

#[test]
fn asserted_unknown_issuer_rejected() {
    let signing_key = make_signing_key(0xABCD);
    let mut profile = all_advisory(10);
    profile.issuer_domain = TenantId(99);
    sign_profile(&mut profile, &signing_key);

    // Trust store does not contain TenantId(99)
    let trust_store = make_trust_store(TenantId(1), &signing_key);
    let err = profile.verify_asserted(
        AuthorityPolicy::all(), 0, 0, SessionId(10), &trust_store
    ).unwrap_err();
    assert!(matches!(err, ProfileError::UnknownIssuer { issuer: TenantId(99) }));
}

#[test]
fn asserted_tampered_signature_rejected() {
    let signing_key = make_signing_key(0x5678);
    let mut profile = all_advisory(10);
    profile.issuer_domain = TenantId(7);
    sign_profile(&mut profile, &signing_key);

    // Tamper with one assertion bit
    profile.assertion_mask = 0;

    let trust_store = make_trust_store(TenantId(7), &signing_key);
    let err = profile.verify_asserted(
        AuthorityPolicy::all(), 0, 0, SessionId(10), &trust_store
    ).unwrap_err();
    assert!(matches!(err, ProfileError::SignatureInvalid));
}

#[test]
fn asserted_session_mismatch_rejected() {
    let signing_key = make_signing_key(0x9ABC);
    let mut profile = all_advisory(10);
    profile.issuer_domain = TenantId(3);
    sign_profile(&mut profile, &signing_key);

    let trust_store = make_trust_store(TenantId(3), &signing_key);
    // Present on wrong session
    let err = profile.verify_asserted(
        AuthorityPolicy::all(), 0, 0, SessionId(99), &trust_store
    ).unwrap_err();
    assert!(matches!(err, ProfileError::SessionMismatch { .. }));
}

#[test]
fn asserted_wrong_trust_level_rejected() {
    let trust_store = TrustStore::new();
    let profile = all_advisory(1); // trust_level = Advisory
    let err = profile.verify_asserted(
        AuthorityPolicy::all(), 0, 0, SessionId(1), &trust_store
    ).unwrap_err();
    assert!(matches!(err, ProfileError::WrongTrustLevel));
}

#[test]
fn canonical_signing_payload_is_64_bytes() {
    let profile = all_advisory(1);
    let payload = profile.canonical_signing_payload();
    assert_eq!(payload.len(), 64);
}

#[test]
fn canonical_payload_encodes_fields() {
    let profile = SessionProfile {
        profile_id:         1,
        profile_version:    2,
        trust_level:        TrustLevel::Asserted,
        assertion_mask:     0x0102030405060708,
        delegation_mask:    0x090a0b0c0d0e0f10,
        observability_mask: 0x1112131415161718,
        disclosure_mask:    0x191a1b1c1d1e1f20,
        issuer_domain:      TenantId(0x2122232425262728),
        session_id:         SessionId(0x292a2b2c2d2e2f30),
        generation:         0x3132333435363738,
        expiry_epoch:       0x393a3b3c3d3e3f40,
        signature:          vec![],
    };
    let p = profile.canonical_signing_payload();
    assert_eq!(&p[ 0.. 8], &0x0102030405060708u64.to_le_bytes());
    assert_eq!(&p[ 8..16], &0x090a0b0c0d0e0f10u64.to_le_bytes());
    assert_eq!(&p[16..24], &0x1112131415161718u64.to_le_bytes());
    assert_eq!(&p[24..32], &0x191a1b1c1d1e1f20u64.to_le_bytes());
    assert_eq!(&p[32..40], &0x2122232425262728u64.to_le_bytes());
    assert_eq!(&p[40..48], &0x292a2b2c2d2e2f30u64.to_le_bytes());
    assert_eq!(&p[48..56], &0x3132333435363738u64.to_le_bytes());
    assert_eq!(&p[56..64], &0x393a3b3c3d3e3f40u64.to_le_bytes());
}

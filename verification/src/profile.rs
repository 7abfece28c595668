//! Session profiles: what a stream claims when it opens, and what of it is granted.
//!
//! An advisory profile is taken at its word; an asserted or attested one carries an Ed25519
//! signature of its issuer over a canonical form of the claim. The session is part of that form,
//! so a profile cannot be moved to another session. In every case the grant is cut to the
//! parent's ceiling.

use vstd::prelude::*;

use crate::auth::{AuthorityPolicy, law_intersection_is_greatest_bound};
use crate::bytes::{
    le_value, lemma_byte_ranges, lemma_le_bytes_len, lemma_le_value_of_bytes, put_le,
};
use crate::grammar::u64_bytes;
use crate::idmap::IdMap;
use crate::{SessionId, TenantId};

verus! {

/// The error of `ed25519_dalek`, which says no more than that a verification failed.
#[verifier::external_type_specification]
#[verifier::external_body]
pub struct ExSignatureError(ed25519_dalek::SignatureError);

/// `ed25519_dalek` takes `signature` for one of `message` by the holder of `key`: the key bytes
/// are those of a curve point, and strict verification succeeds.
pub uninterp spec fn ed25519_verifies(key: Seq<u8>, message: Seq<u8>, signature: Seq<u8>) -> bool;

/// `ed25519_dalek::VerifyingKey::verify_strict`, with the key and the signature made from their
/// bytes. The result depends on the three byte strings alone; which of them verify is left to
/// the name.
#[verifier::external_body]
fn ed25519_verify_strict(key: &[u8; 32], message: &[u8; 64], signature: &[u8; 64]) -> (r: Result<
    (),
    ed25519_dalek::SignatureError,
>)
    ensures
        r is Ok == ed25519_verifies(key@, message@, signature@),
{
    let key = ed25519_dalek::VerifyingKey::from_bytes(key)?;
    key.verify_strict(message, &ed25519_dalek::Signature::from_bytes(signature))
}

/// The Ed25519 public key of an issuer.
#[derive(Clone, Copy, Debug, PartialEq, Eq)]
pub struct IssuerKey(pub [u8; 32]);

/// The keys of the issuers that profiles are accepted from.
pub type TrustStore = IdMap<TenantId, IssuerKey>;

pub type ProfileId = u32;

/// How much a profile is backed.
#[derive(Clone, Copy, Debug, PartialEq, Eq, Structural)]
pub enum TrustLevel {
    /// By nothing but the parent's ceiling.
    Advisory,
    /// By a signature of the issuer.
    Asserted,
    /// By a signature of the issuer, on a stream that is authenticated record by record.
    Attested,
}

/// The trust level that a byte stands for.
pub open spec fn trust_level_of(b: u8) -> Option<TrustLevel> {
    if b == 0x01 {
        Some(TrustLevel::Advisory)
    } else if b == 0x02 {
        Some(TrustLevel::Asserted)
    } else if b == 0x03 {
        Some(TrustLevel::Attested)
    } else {
        None
    }
}

impl TrustLevel {
    pub fn from_u8(b: u8) -> (level: Option<Self>)
        ensures
            level == trust_level_of(b),
    {
        match b {
            0x01 => Some(Self::Advisory),
            0x02 => Some(Self::Asserted),
            0x03 => Some(Self::Attested),
            _ => None,
        }
    }

    pub fn as_u8(self) -> (b: u8)
        ensures
            trust_level_of(b) == Some(self),
            1 <= b <= 3,
    {
        match self {
            Self::Advisory => 0x01,
            Self::Asserted => 0x02,
            Self::Attested => 0x03,
        }
    }
}

/// What a stream claims.
#[derive(Clone, Debug)]
pub struct SessionProfile {
    pub profile_id: ProfileId,
    pub profile_version: u16,
    pub trust_level: TrustLevel,
    pub assertion_mask: u64,
    pub delegation_mask: u64,
    pub observability_mask: u64,
    pub disclosure_mask: u64,
    pub issuer_domain: TenantId,
    /// The session that the profile was issued for.
    pub session_id: SessionId,
    /// Counts up from issue to issue; what lies below the valid minimum is revoked.
    pub generation: u64,
    /// The last epoch in which the profile holds; `u64::MAX` for ever.
    pub expiry_epoch: u64,
    pub signature: Vec<u8>,
}

/// The mathematical content of a [`SessionProfile`].
pub struct ProfileView {
    pub profile_id: u32,
    pub profile_version: u16,
    pub trust_level: TrustLevel,
    pub policy: AuthorityPolicy,
    pub issuer_domain: TenantId,
    pub session_id: SessionId,
    pub generation: u64,
    pub expiry_epoch: u64,
    pub signature: Seq<u8>,
}

impl View for SessionProfile {
    type V = ProfileView;

    open spec fn view(&self) -> ProfileView {
        ProfileView {
            profile_id: self.profile_id,
            profile_version: self.profile_version,
            trust_level: self.trust_level,
            policy: AuthorityPolicy {
                assertion: self.assertion_mask,
                delegation: self.delegation_mask,
                observability: self.observability_mask,
                disclosure: self.disclosure_mask,
            },
            issuer_domain: self.issuer_domain,
            session_id: self.session_id,
            generation: self.generation,
            expiry_epoch: self.expiry_epoch,
            signature: self.signature@,
        }
    }
}

#[derive(Clone, Copy, Debug, PartialEq, Eq, Structural)]
pub enum ProfileError {
    UnknownTrustLevel(u8),
    WrongTrustLevel,
    Expired { expiry: u64, current: u64 },
    GenerationRevoked { profile: u64, min_valid: u64 },
    SessionMismatch { profile_session: SessionId, actual_session: SessionId },
    UnknownIssuer { issuer: TenantId },
    SignatureInvalid,
}

/// What was found out about a profile's signature.
#[derive(Clone, Copy, Debug, PartialEq, Eq, Structural)]
pub enum SignatureVerdict {
    /// No key of the issuer is known.
    UnknownIssuer,
    /// The signature is not 64 bytes long, or does not verify.
    Invalid,
    Valid,
}

/// What an issuer signs: the four masks, the issuer, the session, the generation and the expiry,
/// eight bytes each.
pub open spec fn signing_payload(p: ProfileView) -> Seq<u8> {
    u64_bytes(p.policy.assertion) + u64_bytes(p.policy.delegation) + u64_bytes(
        p.policy.observability,
    ) + u64_bytes(p.policy.disclosure) + u64_bytes(p.issuer_domain.0) + u64_bytes(p.session_id.0)
        + u64_bytes(p.generation) + u64_bytes(p.expiry_epoch)
}

/// Why the claim itself does not stand on session `actual` at `epoch`, apart from signatures:
/// the first reason that applies.
pub open spec fn claim_error(
    p: ProfileView,
    epoch: u64,
    min_generation: u64,
    actual: SessionId,
) -> Option<ProfileError> {
    if p.session_id != actual {
        Some(
            ProfileError::SessionMismatch { profile_session: p.session_id, actual_session: actual },
        )
    } else if p.expiry_epoch != u64::MAX && epoch > p.expiry_epoch {
        Some(ProfileError::Expired { expiry: p.expiry_epoch, current: epoch })
    } else if p.generation < min_generation {
        Some(
            ProfileError::GenerationRevoked { profile: p.generation, min_valid: min_generation },
        )
    } else {
        None
    }
}

/// What an advisory profile is granted.
pub open spec fn advisory_grant(
    p: ProfileView,
    parent: AuthorityPolicy,
    epoch: u64,
    min_generation: u64,
    actual: SessionId,
) -> Result<AuthorityPolicy, ProfileError> {
    if p.trust_level != TrustLevel::Advisory {
        Err(ProfileError::WrongTrustLevel)
    } else {
        match claim_error(p, epoch, min_generation, actual) {
            Some(e) => Err(e),
            None => Ok(p.policy.intersect(parent)),
        }
    }
}

/// What a signed profile is granted where its signature is found to be `verdict`.
pub open spec fn signed_grant(
    p: ProfileView,
    parent: AuthorityPolicy,
    epoch: u64,
    min_generation: u64,
    actual: SessionId,
    verdict: SignatureVerdict,
) -> Result<AuthorityPolicy, ProfileError> {
    if p.trust_level == TrustLevel::Advisory {
        Err(ProfileError::WrongTrustLevel)
    } else {
        match claim_error(p, epoch, min_generation, actual) {
            Some(e) => Err(e),
            None => match verdict {
                SignatureVerdict::UnknownIssuer => Err(
                    ProfileError::UnknownIssuer { issuer: p.issuer_domain },
                ),
                SignatureVerdict::Invalid => Err(ProfileError::SignatureInvalid),
                SignatureVerdict::Valid => Ok(p.policy.intersect(parent)),
            },
        }
    }
}

/// What the keys in `keys` say of a profile's signature.
pub open spec fn signature_verdict(p: ProfileView, keys: Map<TenantId, IssuerKey>) -> SignatureVerdict {
    if !keys.contains_key(p.issuer_domain) {
        SignatureVerdict::UnknownIssuer
    } else if p.signature.len() == 64 && ed25519_verifies(
        keys[p.issuer_domain].0@,
        signing_payload(p),
        p.signature,
    ) {
        SignatureVerdict::Valid
    } else {
        SignatureVerdict::Invalid
    }
}

impl SessionProfile {
    /// The authority that the profile claims.
    pub fn claimed_policy(&self) -> (policy: AuthorityPolicy)
        ensures
            policy == self@.policy,
    {
        AuthorityPolicy {
            assertion: self.assertion_mask,
            delegation: self.delegation_mask,
            observability: self.observability_mask,
            disclosure: self.disclosure_mask,
        }
    }

    /// The 64 bytes that an issuer signs.
    pub fn canonical_signing_payload(&self) -> (payload: [u8; 64])
        ensures
            payload@ == signing_payload(self@),
    {
        let mut buf: [u8; 64] = [0; 64];
        put_le(&mut buf, 0, self.assertion_mask, 8);
        put_le(&mut buf, 8, self.delegation_mask, 8);
        put_le(&mut buf, 16, self.observability_mask, 8);
        put_le(&mut buf, 24, self.disclosure_mask, 8);
        put_le(&mut buf, 32, self.issuer_domain.0, 8);
        put_le(&mut buf, 40, self.session_id.0, 8);
        put_le(&mut buf, 48, self.generation, 8);
        put_le(&mut buf, 56, self.expiry_epoch, 8);
        proof {
            broadcast use lemma_le_bytes_len;

            assert(buf@ =~= signing_payload(self@));
        }
        buf
    }

    pub fn check_session_binding(&self, actual_session: SessionId) -> (r: Result<(), ProfileError>)
        ensures
            r == (if self.session_id != actual_session {
                Err(
                    ProfileError::SessionMismatch {
                        profile_session: self.session_id,
                        actual_session,
                    },
                )
            } else {
                Ok(())
            }),
    {
        if self.session_id != actual_session {
            return Err(
                ProfileError::SessionMismatch { profile_session: self.session_id, actual_session },
            );
        }
        Ok(())
    }

    pub fn check_expiry(&self, current_epoch: u64) -> (r: Result<(), ProfileError>)
        ensures
            r == (if self.expiry_epoch != u64::MAX && current_epoch > self.expiry_epoch {
                Err(ProfileError::Expired { expiry: self.expiry_epoch, current: current_epoch })
            } else {
                Ok(())
            }),
    {
        if self.expiry_epoch != u64::MAX && current_epoch > self.expiry_epoch {
            return Err(ProfileError::Expired { expiry: self.expiry_epoch, current: current_epoch });
        }
        Ok(())
    }

    pub fn check_generation(&self, min_generation: u64) -> (r: Result<(), ProfileError>)
        ensures
            r == (if self.generation < min_generation {
                Err(
                    ProfileError::GenerationRevoked {
                        profile: self.generation,
                        min_valid: min_generation,
                    },
                )
            } else {
                Ok(())
            }),
    {
        if self.generation < min_generation {
            return Err(
                ProfileError::GenerationRevoked {
                    profile: self.generation,
                    min_valid: min_generation,
                },
            );
        }
        Ok(())
    }

    /// Grants an advisory profile what it claims, cut to the parent's ceiling.
    pub fn verify_advisory(
        &self,
        parent_policy: AuthorityPolicy,
        current_epoch: u64,
        min_generation: u64,
        actual_session: SessionId,
    ) -> (r: Result<AuthorityPolicy, ProfileError>)
        ensures
            r == advisory_grant(self@, parent_policy, current_epoch, min_generation, actual_session),
    {
        if self.trust_level != TrustLevel::Advisory {
            return Err(ProfileError::WrongTrustLevel);
        }
        self.check_session_binding(actual_session)?;
        self.check_expiry(current_epoch)?;
        self.check_generation(min_generation)?;
        Ok(self.claimed_policy().intersect(parent_policy))
    }

    /// Looks up the issuer's key and verifies the signature with it.
    pub fn check_signature(&self, trust_store: &TrustStore) -> (verdict: SignatureVerdict)
        ensures
            verdict == signature_verdict(self@, trust_store@),
    {
        let key = match trust_store.get(&self.issuer_domain) {
            Some(key) => key,
            None => return SignatureVerdict::UnknownIssuer,
        };
        if self.signature.len() != 64 {
            return SignatureVerdict::Invalid;
        }
        let mut signature: [u8; 64] = [0; 64];
        let mut i: usize = 0;
        while i < 64
            invariant
                i <= 64,
                self.signature@.len() == 64,
                forall|j: int| 0 <= j < i ==> signature@[j] == self.signature@[j],
            decreases 64 - i,
        {
            signature[i] = self.signature[i];
            i = i + 1;
        }
        assert(signature@ =~= self.signature@);
        let payload = self.canonical_signing_payload();
        match ed25519_verify_strict(&key.0, &payload, &signature) {
            Ok(_) => SignatureVerdict::Valid,
            Err(_) => SignatureVerdict::Invalid,
        }
    }

    /// Grants a signed profile what it claims, cut to the parent's ceiling, where its signature
    /// was found to be valid.
    pub fn verify_signed(
        &self,
        parent_policy: AuthorityPolicy,
        current_epoch: u64,
        min_generation: u64,
        actual_session: SessionId,
        verdict: SignatureVerdict,
    ) -> (r: Result<AuthorityPolicy, ProfileError>)
        ensures
            r == signed_grant(
                self@,
                parent_policy,
                current_epoch,
                min_generation,
                actual_session,
                verdict,
            ),
    {
        if !matches!(self.trust_level, TrustLevel::Asserted | TrustLevel::Attested) {
            return Err(ProfileError::WrongTrustLevel);
        }
        self.check_session_binding(actual_session)?;
        self.check_expiry(current_epoch)?;
        self.check_generation(min_generation)?;
        match verdict {
            SignatureVerdict::UnknownIssuer => Err(
                ProfileError::UnknownIssuer { issuer: self.issuer_domain },
            ),
            SignatureVerdict::Invalid => Err(ProfileError::SignatureInvalid),
            SignatureVerdict::Valid => Ok(self.claimed_policy().intersect(parent_policy)),
        }
    }

    /// Verifies an asserted or attested profile against the issuer's key in `trust_store`.
    pub fn verify_asserted(
        &self,
        parent_policy: AuthorityPolicy,
        current_epoch: u64,
        min_generation: u64,
        actual_session: SessionId,
        trust_store: &TrustStore,
    ) -> (r: Result<AuthorityPolicy, ProfileError>)
        ensures
            r == signed_grant(
                self@,
                parent_policy,
                current_epoch,
                min_generation,
                actual_session,
                signature_verdict(self@, trust_store@),
            ),
    {
        let verdict = self.check_signature(trust_store);
        self.verify_signed(parent_policy, current_epoch, min_generation, actual_session, verdict)
    }
}

/// Whatever a profile is granted is bounded by what it claims and by the parent's ceiling.
pub proof fn law_grant_is_bounded(
    p: ProfileView,
    parent: AuthorityPolicy,
    epoch: u64,
    min_generation: u64,
    actual: SessionId,
    verdict: SignatureVerdict,
)
    ensures
        advisory_grant(p, parent, epoch, min_generation, actual) matches Ok(grant)
            ==> grant.is_bounded_by(p.policy) && grant.is_bounded_by(parent),
        signed_grant(p, parent, epoch, min_generation, actual, verdict) matches Ok(grant)
            ==> grant.is_bounded_by(p.policy) && grant.is_bounded_by(parent),
{
    law_intersection_is_greatest_bound(p.policy, parent, parent);
}

/// A profile that was issued for one session is granted nothing on another, whatever its
/// signature.
pub proof fn law_profile_is_bound_to_its_session(
    p: ProfileView,
    parent: AuthorityPolicy,
    epoch: u64,
    min_generation: u64,
    actual: SessionId,
    verdict: SignatureVerdict,
)
    requires
        p.session_id != actual,
    ensures
        advisory_grant(p, parent, epoch, min_generation, actual) is Err,
        signed_grant(p, parent, epoch, min_generation, actual, verdict) is Err,
{
}

/// A signed profile is granted something only where its signature is valid.
pub proof fn law_signature_is_required(
    p: ProfileView,
    parent: AuthorityPolicy,
    epoch: u64,
    min_generation: u64,
    actual: SessionId,
    verdict: SignatureVerdict,
)
    ensures
        signed_grant(p, parent, epoch, min_generation, actual, verdict) is Ok ==> verdict
            == SignatureVerdict::Valid,
{
}

/// A profile that does not stand, stands no better later: neither the epoch nor the least valid
/// generation bring it back.
pub proof fn law_revocation_and_expiry_are_final(
    p: ProfileView,
    epoch: u64,
    later: u64,
    min_generation: u64,
    higher: u64,
    actual: SessionId,
)
    requires
        epoch <= later,
        min_generation <= higher,
        claim_error(p, epoch, min_generation, actual) is Some,
    ensures
        claim_error(p, later, higher, actual) is Some,
{
}

/// A profile without an expiry never expires, and one with an expiry holds up to that epoch.
pub proof fn law_expiry(p: ProfileView, epoch: u64)
    ensures
        claim_error(p, epoch, 0, p.session_id) is None <==> p.expiry_epoch == u64::MAX || epoch
            <= p.expiry_epoch,
{
}

/// The bytes that an issuer signs determine the claim: two profiles with the same bytes claim the
/// same for the same session, with the same issuer, generation and expiry.
pub proof fn law_signing_payload_determines_claim(p: ProfileView, q: ProfileView)
    requires
        signing_payload(p) == signing_payload(q),
    ensures
        p.policy == q.policy,
        p.issuer_domain == q.issuer_domain,
        p.session_id == q.session_id,
        p.generation == q.generation,
        p.expiry_epoch == q.expiry_epoch,
{
    lemma_signing_field(p);
    lemma_signing_field(q);
}

proof fn lemma_signing_field(p: ProfileView)
    ensures
        ({
            let s = signing_payload(p);
            &&& p.policy.assertion == le_value(s.subrange(0, 8))
            &&& p.policy.delegation == le_value(s.subrange(8, 16))
            &&& p.policy.observability == le_value(s.subrange(16, 24))
            &&& p.policy.disclosure == le_value(s.subrange(24, 32))
            &&& p.issuer_domain.0 == le_value(s.subrange(32, 40))
            &&& p.session_id.0 == le_value(s.subrange(40, 48))
            &&& p.generation == le_value(s.subrange(48, 56))
            &&& p.expiry_epoch == le_value(s.subrange(56, 64))
        }),
{
    broadcast use lemma_le_bytes_len;

    let s = signing_payload(p);
    lemma_byte_ranges();
    assert(s.subrange(0, 8) =~= u64_bytes(p.policy.assertion));
    assert(s.subrange(8, 16) =~= u64_bytes(p.policy.delegation));
    assert(s.subrange(16, 24) =~= u64_bytes(p.policy.observability));
    assert(s.subrange(24, 32) =~= u64_bytes(p.policy.disclosure));
    assert(s.subrange(32, 40) =~= u64_bytes(p.issuer_domain.0));
    assert(s.subrange(40, 48) =~= u64_bytes(p.session_id.0));
    assert(s.subrange(48, 56) =~= u64_bytes(p.generation));
    assert(s.subrange(56, 64) =~= u64_bytes(p.expiry_epoch));
    lemma_le_value_of_bytes(p.policy.assertion as nat, 8);
    lemma_le_value_of_bytes(p.policy.delegation as nat, 8);
    lemma_le_value_of_bytes(p.policy.observability as nat, 8);
    lemma_le_value_of_bytes(p.policy.disclosure as nat, 8);
    lemma_le_value_of_bytes(p.issuer_domain.0 as nat, 8);
    lemma_le_value_of_bytes(p.session_id.0 as nat, 8);
    lemma_le_value_of_bytes(p.generation as nat, 8);
    lemma_le_value_of_bytes(p.expiry_epoch as nat, 8);
}

} // verus!

//! What authority means: which bits are held, asked for and granted.

use vstd::prelude::*;

use crate::auth::{
    AuthAxis, AuthTableKey, AuthorityPolicy, DataplaneGateReason, GateResult, PartitionAuthRow,
    gate_verdict, law_intersection_algebra, row_of,
};
use crate::bytes::{le_bytes, lemma_le_bytes_len};
use crate::decode::{IngressError, grant_for, payload_grant, profile_in, with_grant};
use crate::domain::{Domains, effective_caps_of, effective_policy_of, tenant_policy};
use crate::isa::{CapabilityBits, LatticeClass};
use crate::laws::bits::{covers, has_bit, lemma_bit_of_and, lemma_covers, lemma_extremes};
use crate::{SessionId, TenantId, WirePartitionId};
use crate::opcode::OpcodeClass;
use crate::profile::{
    IssuerKey, ProfileError, ProfileView, SignatureVerdict, TrustLevel, advisory_grant,
    claim_error, ed25519_verifies, signature_verdict, signed_grant, signing_payload,
};
use crate::runtime::{ParsedHeader, RuntimeView, acting_policy};

verus! {

/// The bits of a policy that count for instructions of a class: mutating ones go by assertion,
/// witnessing ones by observability, profiles by delegation.
pub open spec fn axis_bits(p: AuthorityPolicy, oc: OpcodeClass) -> u64 {
    if oc == OpcodeClass::Subscribe || oc == OpcodeClass::Demand {
        p.observability
    } else if oc == OpcodeClass::Profile {
        p.delegation
    } else if oc == OpcodeClass::Unknown {
        0
    } else {
        p.assertion
    }
}

/// The axis that a denial names.
pub open spec fn denied_axis(oc: OpcodeClass) -> AuthAxis {
    if oc == OpcodeClass::Subscribe || oc == OpcodeClass::Demand {
        AuthAxis::Observability
    } else if oc == OpcodeClass::Profile {
        AuthAxis::Delegation
    } else {
        AuthAxis::Assertion
    }
}

/// A record passes a partition's row exactly where its class has no compartment that the row's
/// lacks, and the session holds every single bit that the row asks for on the axis that counts.
/// A missing compartment is a lattice violation; otherwise a missing bit is a policy violation on
/// that axis.
pub proof fn law_gate_asks_for_every_bit(
    row: PartitionAuthRow,
    oc: OpcodeClass,
    emitted: LatticeClass,
    session: AuthorityPolicy,
)
    ensures
        ({
            let verdict = gate_verdict(Some(row), oc, emitted, session);
            let flows = covers(row.lattice_class.0, emitted.0);
            let holds = covers(axis_bits(session, oc), axis_bits(row.policy, oc));
            &&& verdict == GateResult::Allow <==> flows && holds
            &&& verdict == GateResult::Deny(DataplaneGateReason::LatticeViolation) <==> !flows
            &&& verdict == GateResult::Deny(
                DataplaneGateReason::PolicyViolation(denied_axis(oc)),
            ) <==> flows && !holds
        }),
{
    lemma_covers(row.lattice_class.0, emitted.0);
    lemma_covers(axis_bits(session, oc), axis_bits(row.policy, oc));
}

/// One missing bit is enough to be denied.
pub proof fn law_one_missing_bit_is_denied(
    row: PartitionAuthRow,
    oc: OpcodeClass,
    emitted: LatticeClass,
    session: AuthorityPolicy,
    i: u64,
)
    requires
        has_bit(axis_bits(row.policy, oc), i),
        !has_bit(axis_bits(session, oc), i),
        covers(row.lattice_class.0, emitted.0),
    ensures
        gate_verdict(Some(row), oc, emitted, session) == GateResult::Deny(
            DataplaneGateReason::PolicyViolation(denied_axis(oc)),
        ),
{
    law_gate_asks_for_every_bit(row, oc, emitted, session);
}

/// A row is found under its own partition and class, and under no other.
pub proof fn law_rows_are_found_where_they_were_put(
    rows: Map<AuthTableKey, PartitionAuthRow>,
    key: AuthTableKey,
    row: PartitionAuthRow,
    partition_id: WirePartitionId,
    oc: OpcodeClass,
)
    ensures
        row_of(Map::empty(), partition_id, oc) is None,
        row_of(rows.insert(key, row), partition_id, oc) == if partition_id == key.partition_id && oc
            == key.opcode_class {
            Some(row)
        } else {
            row_of(rows, partition_id, oc)
        },
        row_of(rows.remove(key), partition_id, oc) == if partition_id == key.partition_id && oc
            == key.opcode_class {
            None
        } else {
            row_of(rows, partition_id, oc)
        },
{
    let k = AuthTableKey { partition_id, opcode_class: oc };
    assert(k == key <==> partition_id == key.partition_id && oc == key.opcode_class);
}

/// Without a row there is nothing to be denied by.
pub proof fn law_no_row_no_denial(oc: OpcodeClass, emitted: LatticeClass, session: AuthorityPolicy)
    ensures
        gate_verdict(None, oc, emitted, session) == GateResult::Allow,
{
}

/// A policy that is bounded has on no axis a bit that its ceiling lacks, and the other way round.
pub proof fn law_bounds_are_bit_by_bit(p: AuthorityPolicy, ceiling: AuthorityPolicy)
    ensures
        p.is_bounded_by(ceiling) <==> covers(ceiling.assertion, p.assertion) && covers(
            ceiling.delegation,
            p.delegation,
        ) && covers(ceiling.observability, p.observability) && covers(
            ceiling.disclosure,
            p.disclosure,
        ),
{
    lemma_covers(ceiling.assertion, p.assertion);
    lemma_covers(ceiling.delegation, p.delegation);
    lemma_covers(ceiling.observability, p.observability);
    lemma_covers(ceiling.disclosure, p.disclosure);
}

/// The policy has on each axis exactly the bits that both others have.
pub open spec fn is_common(p: AuthorityPolicy, a: AuthorityPolicy, b: AuthorityPolicy) -> bool {
    forall|i: u64|
        #![trigger has_bit(p.assertion, i)]
        #![trigger has_bit(p.delegation, i)]
        #![trigger has_bit(p.observability, i)]
        #![trigger has_bit(p.disclosure, i)]
        {
            &&& has_bit(p.assertion, i) <==> has_bit(a.assertion, i) && has_bit(b.assertion, i)
            &&& has_bit(p.delegation, i) <==> has_bit(a.delegation, i) && has_bit(b.delegation, i)
            &&& has_bit(p.observability, i) <==> has_bit(a.observability, i) && has_bit(
                b.observability,
                i,
            )
            &&& has_bit(p.disclosure, i) <==> has_bit(a.disclosure, i) && has_bit(b.disclosure, i)
        }
}

/// An intersection has exactly the bits that both policies have.
pub proof fn law_intersection_is_what_both_hold(a: AuthorityPolicy, b: AuthorityPolicy)
    ensures
        is_common(a.intersect(b), a, b),
{
    assert forall|i: u64| #![auto]
        {
            &&& has_bit(a.assertion & b.assertion, i) <==> has_bit(a.assertion, i) && has_bit(
                b.assertion,
                i,
            )
            &&& has_bit(a.delegation & b.delegation, i) <==> has_bit(a.delegation, i) && has_bit(
                b.delegation,
                i,
            )
            &&& has_bit(a.observability & b.observability, i) <==> has_bit(a.observability, i)
                && has_bit(b.observability, i)
            &&& has_bit(a.disclosure & b.disclosure, i) <==> has_bit(a.disclosure, i) && has_bit(
                b.disclosure,
                i,
            )
        } by {
        lemma_bit_of_and(a.assertion, b.assertion, i);
        lemma_bit_of_and(a.delegation, b.delegation, i);
        lemma_bit_of_and(a.observability, b.observability, i);
        lemma_bit_of_and(a.disclosure, b.disclosure, i);
    }
}

/// What a registered session holds is what it claims and its tenant holds, bit by bit; under a
/// tenant that is not registered it holds nothing; and of a session that is not registered nothing
/// is known.
pub proof fn law_effective_policy(domains: Domains, id: SessionId)
    ensures
        !domains.sessions.contains_key(id) ==> effective_policy_of(domains, id) is None,
        domains.sessions.contains_key(id) ==> {
            let s = domains.sessions[id];
            &&& effective_policy_of(domains, id) is Some
            &&& domains.tenants.contains_key(s.tenant_id) ==> is_common(
                effective_policy_of(domains, id)->0,
                s.claimed_policy,
                domains.tenants[s.tenant_id].policy,
            )
            &&& !domains.tenants.contains_key(s.tenant_id) ==> effective_policy_of(domains, id)->0
                == (AuthorityPolicy {
                assertion: 0,
                delegation: 0,
                observability: 0,
                disclosure: 0,
            })
        },
{
    if domains.sessions.contains_key(id) {
        let s = domains.sessions[id];
        law_intersection_is_what_both_hold(
            s.claimed_policy,
            tenant_policy(domains, s.tenant_id),
        );
        law_intersection_algebra(s.claimed_policy, s.claimed_policy, s.claimed_policy);
    }
}

/// The ceiling of a tenant is its registered policy, and nothing where it is not registered.
pub proof fn law_tenant_ceiling(domains: Domains, id: TenantId)
    ensures
        domains.tenants.contains_key(id) ==> tenant_policy(domains, id)
            == domains.tenants[id].policy,
        !domains.tenants.contains_key(id) ==> tenant_policy(domains, id) == (AuthorityPolicy {
            assertion: 0,
            delegation: 0,
            observability: 0,
            disclosure: 0,
        }),
{
}

/// A session acts with what it effectively holds, and with every bit where it is not registered.
pub proof fn law_acting_policy(domains: Domains, id: SessionId, i: u64)
    ensures
        domains.sessions.contains_key(id) ==> Some(acting_policy(domains, id))
            == effective_policy_of(domains, id),
        !domains.sessions.contains_key(id) && i < 64 ==> {
            let p = acting_policy(domains, id);
            has_bit(p.assertion, i) && has_bit(p.delegation, i) && has_bit(p.observability, i)
                && has_bit(p.disclosure, i)
        },
{
    lemma_extremes(i);
}

/// A session effectively has a capability exactly where it claims it and its tenant has it.
pub proof fn law_effective_capabilities(domains: Domains, id: SessionId, i: u64)
    ensures
        effective_caps_of(domains, id) is Some <==> domains.sessions.contains_key(id)
            && domains.tenants.contains_key(domains.sessions[id].tenant_id),
        effective_caps_of(domains, id) matches Some(caps) ==> (has_bit(caps.0, i) <==> has_bit(
            domains.sessions[id].claimed_caps.0,
            i,
        ) && has_bit(domains.tenants[domains.sessions[id].tenant_id].capabilities.0, i)),
{
    lemma_bit_of_and(
        domains.sessions[id].claimed_caps.0,
        domains.tenants[domains.sessions[id].tenant_id].capabilities.0,
        i,
    );
}

/// A set of capabilities allows exactly what it covers bit by bit; a union has the bits of either
/// set.
pub proof fn law_capabilities_are_bit_by_bit(a: CapabilityBits, b: CapabilityBits, i: u64)
    ensures
        a.allows(b) <==> covers(a.0, b.0),
        has_bit(a.union(b).0, i) <==> has_bit(a.0, i) || has_bit(b.0, i),
        has_bit(a.intersect(b).0, i) <==> has_bit(a.0, i) && has_bit(b.0, i),
        has_bit(CapabilityBits::all().0, i) <==> i < 64,
        !has_bit(CapabilityBits::none().0, i),
{
    lemma_covers(a.0, b.0);
    lemma_bit_of_and(a.0, b.0, i);
    lemma_extremes(i);
    let x = a.0;
    let y = b.0;
    assert(i < 64 ==> ((x | y) & (1u64 << i) != 0 <==> x & (1u64 << i) != 0 || y & (1u64 << i)
        != 0)) by (bit_vector);
}

/// Information flows exactly to classes that cover its compartments.
pub proof fn law_flow_is_bit_by_bit(a: LatticeClass, b: LatticeClass, i: u64)
    ensures
        a.flows_to(b) <==> covers(b.0, a.0),
        !has_bit(LatticeClass::bottom().0, i),
        has_bit(LatticeClass::top().0, i) <==> i < 64,
{
    lemma_covers(b.0, a.0);
    lemma_extremes(i);
}

/// The fixed policies: one has every bit, one has none, and one has those of witnessing and
/// revealing.
pub proof fn law_fixed_policies(i: u64)
    requires
        i < 64,
    ensures
        ({
            let p = AuthorityPolicy::all();
            has_bit(p.assertion, i) && has_bit(p.delegation, i) && has_bit(p.observability, i)
                && has_bit(p.disclosure, i)
        }),
        ({
            let p = AuthorityPolicy::none();
            !has_bit(p.assertion, i) && !has_bit(p.delegation, i) && !has_bit(p.observability, i)
                && !has_bit(p.disclosure, i)
        }),
        ({
            let p = AuthorityPolicy::read_only();
            !has_bit(p.assertion, i) && !has_bit(p.delegation, i) && has_bit(p.observability, i)
                && has_bit(p.disclosure, i)
        }),
{
    lemma_extremes(i);
}

// ── Profiles ─────────────────────────────────────────────────────────────────

/// The profile has run out by `epoch`.
pub open spec fn is_expired(p: ProfileView, epoch: u64) -> bool {
    p.expiry_epoch != u64::MAX && epoch > p.expiry_epoch
}

/// What a claim is held against: the session that it was issued for, the epoch, and the least
/// generation, in that order.
pub proof fn law_claims(p: ProfileView, epoch: u64, min_generation: u64, actual: SessionId)
    ensures
        claim_error(p, epoch, min_generation, actual) is None <==> p.session_id == actual
            && !is_expired(p, epoch) && p.generation >= min_generation,
        p.session_id != actual ==> claim_error(p, epoch, min_generation, actual) == Some(
            ProfileError::SessionMismatch { profile_session: p.session_id, actual_session: actual },
        ),
        p.session_id == actual && is_expired(p, epoch) ==> claim_error(
            p,
            epoch,
            min_generation,
            actual,
        ) == Some(ProfileError::Expired { expiry: p.expiry_epoch, current: epoch }),
        p.session_id == actual && !is_expired(p, epoch) && p.generation < min_generation
            ==> claim_error(p, epoch, min_generation, actual) == Some(
            ProfileError::GenerationRevoked { profile: p.generation, min_valid: min_generation },
        ),
{
}

/// An advisory profile is granted what it claims and its parent holds, bit by bit, where its claim
/// stands; a profile of another level is not.
pub proof fn law_advisory_grants(
    p: ProfileView,
    parent: AuthorityPolicy,
    epoch: u64,
    min_generation: u64,
    actual: SessionId,
)
    ensures
        ({
            let grant = advisory_grant(p, parent, epoch, min_generation, actual);
            &&& grant is Ok <==> p.trust_level == TrustLevel::Advisory && p.session_id == actual
                && !is_expired(p, epoch) && p.generation >= min_generation
            &&& grant matches Ok(policy) ==> is_common(policy, p.policy, parent)
            &&& p.trust_level != TrustLevel::Advisory ==> grant == Err::<AuthorityPolicy, _>(
                ProfileError::WrongTrustLevel,
            )
            &&& p.trust_level == TrustLevel::Advisory && grant is Err ==> Some(grant->Err_0)
                == claim_error(p, epoch, min_generation, actual)
        }),
{
    law_intersection_is_what_both_hold(p.policy, parent);
}

/// A signed profile is granted what it claims and its parent holds, bit by bit, where its claim
/// stands and its signature is valid; an advisory one is not.
pub proof fn law_signed_grants(
    p: ProfileView,
    parent: AuthorityPolicy,
    epoch: u64,
    min_generation: u64,
    actual: SessionId,
    verdict: SignatureVerdict,
)
    ensures
        ({
            let grant = signed_grant(p, parent, epoch, min_generation, actual, verdict);
            let stands = claim_error(p, epoch, min_generation, actual) is None;
            &&& grant is Ok <==> p.trust_level != TrustLevel::Advisory && p.session_id == actual
                && !is_expired(p, epoch) && p.generation >= min_generation && verdict
                == SignatureVerdict::Valid
            &&& grant matches Ok(policy) ==> is_common(policy, p.policy, parent)
            &&& p.trust_level == TrustLevel::Advisory ==> grant == Err::<AuthorityPolicy, _>(
                ProfileError::WrongTrustLevel,
            )
            &&& p.trust_level != TrustLevel::Advisory && !stands ==> grant is Err && Some(
                grant->Err_0,
            ) == claim_error(p, epoch, min_generation, actual)
            &&& p.trust_level != TrustLevel::Advisory && stands && verdict
                == SignatureVerdict::UnknownIssuer ==> grant == Err::<AuthorityPolicy, _>(
                ProfileError::UnknownIssuer { issuer: p.issuer_domain },
            )
            &&& p.trust_level != TrustLevel::Advisory && stands && verdict
                == SignatureVerdict::Invalid ==> grant == Err::<AuthorityPolicy, _>(
                ProfileError::SignatureInvalid,
            )
        }),
{
    law_intersection_is_what_both_hold(p.policy, parent);
}

/// A signature is valid exactly where the issuer's own key is known, the signature has 64 bytes,
/// and it verifies under that key for the bytes of this claim.
pub proof fn law_signatures(p: ProfileView, keys: Map<TenantId, IssuerKey>)
    ensures
        signature_verdict(p, keys) == SignatureVerdict::UnknownIssuer <==> !keys.contains_key(
            p.issuer_domain,
        ),
        signature_verdict(p, keys) == SignatureVerdict::Valid <==> keys.contains_key(
            p.issuer_domain,
        ) && p.signature.len() == 64 && ed25519_verifies(
            keys[p.issuer_domain].0@,
            signing_payload(p),
            p.signature,
        ),
{
}

/// What is signed, byte by byte: eight numbers of eight bytes.
pub proof fn law_signed_bytes(p: ProfileView)
    ensures
        signing_payload(p).len() == 64,
        signing_payload(p).subrange(0, 8) == le_bytes(p.policy.assertion as nat, 8),
        signing_payload(p).subrange(8, 16) == le_bytes(p.policy.delegation as nat, 8),
        signing_payload(p).subrange(16, 24) == le_bytes(p.policy.observability as nat, 8),
        signing_payload(p).subrange(24, 32) == le_bytes(p.policy.disclosure as nat, 8),
        signing_payload(p).subrange(32, 40) == le_bytes(p.issuer_domain.0 as nat, 8),
        signing_payload(p).subrange(40, 48) == le_bytes(p.session_id.0 as nat, 8),
        signing_payload(p).subrange(48, 56) == le_bytes(p.generation as nat, 8),
        signing_payload(p).subrange(56, 64) == le_bytes(p.expiry_epoch as nat, 8),
{
    broadcast use lemma_le_bytes_len;

    let s = signing_payload(p);
    assert(s.subrange(0, 8) =~= le_bytes(p.policy.assertion as nat, 8));
    assert(s.subrange(8, 16) =~= le_bytes(p.policy.delegation as nat, 8));
    assert(s.subrange(16, 24) =~= le_bytes(p.policy.observability as nat, 8));
    assert(s.subrange(24, 32) =~= le_bytes(p.policy.disclosure as nat, 8));
    assert(s.subrange(32, 40) =~= le_bytes(p.issuer_domain.0 as nat, 8));
    assert(s.subrange(40, 48) =~= le_bytes(p.session_id.0 as nat, 8));
    assert(s.subrange(48, 56) =~= le_bytes(p.generation as nat, 8));
    assert(s.subrange(56, 64) =~= le_bytes(p.expiry_epoch as nat, 8));
}

/// A profile that comes in a record is granted exactly where the record's session is known, the
/// profile was issued for it, it has not run out by the record's own epoch, and it is advisory or
/// validly signed. It is granted, bit by bit, what it claims and the session's tenant holds.
pub proof fn law_profile_in_a_record(
    domains: Domains,
    h: ParsedHeader,
    p: ProfileView,
    verdict: SignatureVerdict,
)
    ensures
        ({
            let grant = grant_for(domains, h, p, verdict);
            let known = domains.sessions.contains_key(h.session_id);
            let tenant = domains.sessions[h.session_id].tenant_id;
            &&& grant is Ok <==> known && p.session_id == h.session_id && !is_expired(
                p,
                h.causal_epoch,
            ) && (p.trust_level == TrustLevel::Advisory || verdict == SignatureVerdict::Valid)
            &&& !known ==> grant == Err::<AuthorityPolicy, _>(
                IngressError::UnknownSession(h.session_id),
            )
            &&& known && p.session_id != h.session_id ==> grant == Err::<AuthorityPolicy, _>(
                IngressError::ProfileVerification(
                    ProfileError::SessionMismatch {
                        profile_session: p.session_id,
                        actual_session: h.session_id,
                    },
                ),
            )
            &&& known && p.session_id == h.session_id && is_expired(p, h.causal_epoch) ==> grant
                == Err::<AuthorityPolicy, _>(
                IngressError::ProfileVerification(
                    ProfileError::Expired { expiry: p.expiry_epoch, current: h.causal_epoch },
                ),
            )
            &&& known && p.session_id == h.session_id && !is_expired(p, h.causal_epoch)
                && p.trust_level != TrustLevel::Advisory && verdict
                == SignatureVerdict::UnknownIssuer ==> grant == Err::<AuthorityPolicy, _>(
                IngressError::ProfileVerification(
                    ProfileError::UnknownIssuer { issuer: p.issuer_domain },
                ),
            )
            &&& known && p.session_id == h.session_id && !is_expired(p, h.causal_epoch)
                && p.trust_level != TrustLevel::Advisory && verdict == SignatureVerdict::Invalid
                ==> grant == Err::<AuthorityPolicy, _>(
                IngressError::ProfileVerification(ProfileError::SignatureInvalid),
            )
            &&& grant matches Ok(policy) ==> {
                &&& domains.tenants.contains_key(tenant) ==> is_common(
                    policy,
                    p.policy,
                    domains.tenants[tenant].policy,
                )
                &&& !domains.tenants.contains_key(tenant) ==> policy == (AuthorityPolicy {
                    assertion: 0,
                    delegation: 0,
                    observability: 0,
                    disclosure: 0,
                })
            }
        }),
{
    let tenant = domains.sessions[h.session_id].tenant_id;
    law_intersection_is_what_both_hold(p.policy, tenant_policy(domains, tenant));
    law_intersection_algebra(p.policy, p.policy, p.policy);
}

/// An expired profile is granted nothing by any way in, and leaves the session's claim as it was.
pub proof fn law_expired_profile_is_never_granted(
    rt: RuntimeView,
    h: ParsedHeader,
    payload: Seq<u8>,
    p: ProfileView,
    verdict: SignatureVerdict,
)
    requires
        is_expired(p, h.causal_epoch),
    ensures
        grant_for(rt.domains, h, p, verdict) is Err,
        with_grant(rt.domains, h.session_id, grant_for(rt.domains, h, p, verdict)) == rt.domains,
        profile_in(payload) == Ok::<ProfileView, IngressError>(p) ==> payload_grant(
            rt,
            h,
            payload,
        ) is Err,
        rt.domains.sessions.contains_key(h.session_id) && p.session_id == h.session_id ==> {
            let answer = Err::<AuthorityPolicy, _>(
                IngressError::ProfileVerification(
                    ProfileError::Expired { expiry: p.expiry_epoch, current: h.causal_epoch },
                ),
            );
            &&& grant_for(rt.domains, h, p, verdict) == answer
            &&& profile_in(payload) == Ok::<ProfileView, IngressError>(p) ==> payload_grant(
                rt,
                h,
                payload,
            ) == answer
        },
{
    law_profile_in_a_record(rt.domains, h, p, verdict);
    law_profile_in_a_record(rt.domains, h, p, signature_verdict(p, rt.trust_store));
}

/// A profile payload is granted what the profile in it is, with the signature as the known keys
/// have it; what is no profile is answered with what is wrong with it.
pub proof fn law_profile_payload(rt: RuntimeView, h: ParsedHeader, payload: Seq<u8>)
    ensures
        match profile_in(payload) {
            Ok(p) => payload_grant(rt, h, payload) == grant_for(
                rt.domains,
                h,
                p,
                signature_verdict(p, rt.trust_store),
            ),
            Err(e) => payload_grant(rt, h, payload) == Err::<AuthorityPolicy, IngressError>(e),
        },
{
}

/// A grant becomes the claim of its session and changes nothing else; a refusal changes nothing.
pub proof fn law_grant_is_installed(
    domains: Domains,
    id: SessionId,
    policy: AuthorityPolicy,
    e: IngressError,
    other: SessionId,
)
    requires
        domains.sessions.contains_key(id),
    ensures
        with_grant(domains, id, Err(e)) == domains,
        ({
            let after = with_grant(domains, id, Ok(policy));
            &&& after.tenants == domains.tenants
            &&& after.partitions == domains.partitions
            &&& after.shards == domains.shards
            &&& after.sessions[id].claimed_policy == policy
            &&& after.sessions[id].id == domains.sessions[id].id
            &&& after.sessions[id].tenant_id == domains.sessions[id].tenant_id
            &&& after.sessions[id].claimed_caps == domains.sessions[id].claimed_caps
            &&& after.sessions[id].auth_mode == domains.sessions[id].auth_mode
            &&& after.sessions[id].quota == domains.sessions[id].quota
            &&& after.sessions.contains_key(other) == domains.sessions.contains_key(other)
            &&& other != id ==> after.sessions[other] == domains.sessions[other]
        }),
{
}

} // verus!

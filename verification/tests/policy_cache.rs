use base64::engine::general_purpose::STANDARD;
use base64::Engine;
use ed25519_dalek::{Signer, SigningKey};

use fornax_types::order::{SortedMap, SortedSet};
use fornax_types::policy::revocation::authenticate_revocation_list;
use fornax_types::policy::{
    authenticate_bundle, digest_of, BundlePayload, BundleProvenance, BundleSignature,
    SignatureAlgorithm, SignedPolicyBundle, TrustedKey, BUNDLE_SCHEMA_VERSION,
    BUNDLE_SIGNING_DOMAIN, MAX_PAYLOAD_BYTES,
};
use fornax_types::time::parse_rfc3339;
use fornax_types::{
    compute_posture, effective_outcome, evaluate_activation, evaluate_revocation_ingest, freshness,
    member_freshness, resolve, staleness_floor, verify_bundle, verify_revocation_list, ActionClass,
    ActivationDecision, ActivationOutcome, ActivationRejection, BundleRejection, CacheGeneration,
    CachedBundleRef, DeviceContext, DiagnosticCode, DiagnosticSeverity, EffectivePolicy,
    EnforcementOutcome, EnforcementRule, FieldProvenance, FreshnessTier, KeyId, OsFamily,
    PayloadDigest, PolicyBinding, PolicyCacheState, PolicyContent, PolicyDegradationReason,
    PolicyDiagnostic, PolicyDraft, PolicyFieldId, PolicyFreshness, PolicyId, PolicyPosture,
    PolicyRevisionBody, Provider, PublishedPolicyRevision, ResolvedPolicy, ResolvedValues,
    RevisionDigest, RevocationEntry, RevocationHitMeta, RevocationIngestDecision,
    RevocationIngestRejection, RevocationPayload, RevocationRejection, RevocationSet,
    RevocationTarget, RiskClass, RiskClassSeconds, RiskClassTiers, RuntimeCapabilities,
    SequenceHighWater, SignedRevocationList, TargetScope, TargetSelector, Timestamp,
    TrustedVerificationKeys, Uuid, Verdict, VerdictOutcomes, VerifiedPolicyBundle,
    VerifiedRevocationList, CAPABILITY_SCHEMA_VERSION, POLICY_CACHE_SCHEMA_VERSION,
    POLICY_SCHEMA_VERSION, REVOCATION_SCHEMA_VERSION, REVOCATION_SIGNING_DOMAIN,
};

fn at(text: &str) -> Timestamp {
    parse_rfc3339(text).unwrap()
}

fn base_now() -> Timestamp {
    at("2026-06-01T00:00:00Z")
}

fn primary_signing_key() -> SigningKey {
    SigningKey::from_bytes(&[7; 32])
}

fn rotated_signing_key() -> SigningKey {
    SigningKey::from_bytes(&[8; 32])
}

fn trust_for(key_id: &str, key: &SigningKey) -> TrustedVerificationKeys {
    TrustedVerificationKeys {
        schema_version: 1,
        keys: vec![TrustedKey {
            key_id: KeyId(key_id.to_string()),
            algorithm: SignatureAlgorithm::Ed25519,
            public_key_b64: STANDARD.encode(key.verifying_key().to_bytes()),
            not_before: None,
            not_after: None,
            comment: None,
        }],
    }
}

fn sign(domain: &[u8], payload: &[u8], key_id: &str, key: &SigningKey) -> BundleSignature {
    let mut message = domain.to_vec();
    message.extend_from_slice(payload);
    BundleSignature {
        key_id: KeyId(key_id.to_string()),
        algorithm: SignatureAlgorithm::Ed25519,
        signature_b64: STANDARD.encode(key.sign(&message).to_bytes()),
    }
}

fn cloud_sync_content(allowed: bool) -> PolicyContent {
    let mut content = PolicyContent::default();
    content.egress.cloud_sync_allowed = Some(allowed);
    content
}

fn draft(content: PolicyContent) -> PolicyDraft {
    PolicyDraft {
        policy_id: PolicyId(Uuid::from_u128(0xd0)),
        revision: 1,
        supersedes: None,
        display_name: "test policy".to_string(),
        content,
        pinned_fields: SortedSet::new(),
    }
}

fn sample_revision() -> PublishedPolicyRevision {
    draft(cloud_sync_content(true)).publish("2026-01-01T00:00:00Z".to_string()).unwrap()
}

fn org_binding(org_id: &str, revision: &PublishedPolicyRevision, id: u128) -> PolicyBinding {
    PolicyBinding {
        binding_id: Uuid::from_u128(id),
        scope: TargetScope::Org { org_id: org_id.to_string() },
        selector: TargetSelector::default(),
        revision_ref: revision.reference(),
    }
}

/// A payload with its signed envelope; the payload bytes are a rendering of
/// the payload that differs wherever the payload does.
#[derive(Clone)]
struct Submission {
    envelope: SignedPolicyBundle,
    payload: BundlePayload,
}

fn submission(payload: BundlePayload, key_id: &str, key: &SigningKey) -> Submission {
    let bytes = format!("{payload:?}").into_bytes();
    let envelope = SignedPolicyBundle {
        bundle_schema_version: BUNDLE_SCHEMA_VERSION,
        payload_b64: STANDARD.encode(&bytes),
        signatures: vec![sign(&BUNDLE_SIGNING_DOMAIN, &bytes, key_id, key)],
    };
    Submission { envelope, payload }
}

fn payload_for(
    issuer: &str,
    sequence: u64,
    bundle_id: u128,
    revision: PublishedPolicyRevision,
    bindings: Vec<PolicyBinding>,
) -> BundlePayload {
    BundlePayload {
        bundle_schema_version: BUNDLE_SCHEMA_VERSION,
        bundle_id: Uuid::from_u128(bundle_id),
        sequence,
        issued_at: "2026-01-01T00:00:00Z".to_string(),
        not_before: "2026-01-01T00:00:00Z".to_string(),
        expires_at: "2027-01-01T00:00:00Z".to_string(),
        provenance: BundleProvenance {
            issuer: issuer.to_string(),
            audit_ref: None,
            authorized_by: None,
        },
        revision,
        bindings,
    }
}

fn make_bundle(issuer: &str, sequence: u64, policy_id: u128, bundle_id: u128) -> Submission {
    let mut d = draft(cloud_sync_content(true));
    d.policy_id = PolicyId(Uuid::from_u128(policy_id));
    d.revision = 1;
    let revision = d.publish("2026-01-01T00:00:00Z".to_string()).unwrap();
    let binding = org_binding("org-1", &revision, bundle_id + 1_000_000);
    submission(
        payload_for(issuer, sequence, bundle_id, revision, vec![binding]),
        "k1",
        &primary_signing_key(),
    )
}

fn trust() -> TrustedVerificationKeys {
    trust_for("k1", &primary_signing_key())
}

fn verify(
    s: &Submission,
    trust: &TrustedVerificationKeys,
    now: Timestamp,
) -> Result<VerifiedPolicyBundle, BundleRejection> {
    let authenticated = authenticate_bundle(Ok(s.envelope.clone()), trust, now)?;
    verify_bundle(authenticated, Ok(s.payload.clone()), now)
}

fn empty_state() -> PolicyCacheState {
    state_with(RevocationSet::default())
}

fn state_with(revocations: RevocationSet) -> PolicyCacheState {
    PolicyCacheState {
        schema_version: POLICY_CACHE_SCHEMA_VERSION,
        active: None,
        pending: None,
        last_known_good: None,
        high_water: SortedMap::new(),
        ever_configured: false,
        revocations,
    }
}

/// What a store does with a decision.
fn apply_bundle(
    state: &PolicyCacheState,
    s: &Submission,
    trust: &TrustedVerificationKeys,
    now: Timestamp,
) -> (PolicyCacheState, ActivationOutcome) {
    let active_generation = state.active.as_ref().map(|g| g.generation);
    let candidate = match verify(s, trust, now) {
        Ok(c) => c,
        Err(e) => {
            return (
                state.clone(),
                ActivationOutcome::Rejected {
                    rejection: ActivationRejection::NotVerified(e),
                    active_generation,
                },
            )
        }
    };
    let issuer = candidate.payload().provenance.issuer.clone();
    match evaluate_activation(&candidate, state, now) {
        Err(rejection) => {
            (state.clone(), ActivationOutcome::Rejected { rejection, active_generation })
        }
        Ok(ActivationDecision::Activate { members, replaced }) => {
            let generation = active_generation.unwrap_or(0) + 1;
            let mut new_state = state.clone();
            new_state.last_known_good = state.active.clone();
            new_state.active = Some(CacheGeneration { generation, members, written_at: now });
            new_state.pending = None;
            new_state.ever_configured = true;
            let policy_id = candidate.revision().body().policy_id;
            new_state.high_water = new_state.high_water.with(
                (issuer.clone(), policy_id),
                SequenceHighWater {
                    issuer,
                    policy_id,
                    max_sequence: candidate.payload().sequence,
                    last_bundle_id: candidate.payload().bundle_id,
                    last_payload_digest: candidate.payload_digest().clone(),
                    last_seen_at: now,
                },
            );
            (
                new_state,
                ActivationOutcome::Activated {
                    generation,
                    superseded: active_generation,
                    replaced_member: replaced,
                },
            )
        }
        Ok(ActivationDecision::Confirm { policy_id, .. }) => {
            let mut new_state = state.clone();
            if let Some(active) = new_state.active.as_mut() {
                for m in active.members.iter_mut() {
                    if m.policy_id == policy_id {
                        m.confirmed_at = now;
                    }
                }
            }
            let generation = new_state.active.as_ref().map(|g| g.generation).unwrap_or(0);
            (new_state, ActivationOutcome::Confirmed { generation, policy_id, confirmed_at: now })
        }
    }
}

#[test]
fn t54_fresh_activation_activates_generation_one_with_member_and_high_water() {
    let s = make_bundle("issuer-a", 1, 54, 1);
    let (new_state, outcome) = apply_bundle(&empty_state(), &s, &trust(), base_now());
    match outcome {
        ActivationOutcome::Activated { generation, superseded, replaced_member } => {
            assert_eq!(generation, 1);
            assert_eq!(superseded, None);
            assert_eq!(replaced_member, None);
        }
        other => panic!("expected Activated, got {other:?}"),
    }
    let active = new_state.active.expect("active generation must be set");
    assert_eq!(active.generation, 1);
    assert_eq!(active.members.len(), 1);
    assert_eq!(active.members[0].policy_id, PolicyId(Uuid::from_u128(54)));
    assert_eq!(active.members[0].confirmed_at, base_now());
    assert_eq!(active.members[0].not_before, at("2026-01-01T00:00:00Z"));
    assert_eq!(active.members[0].expires_at, at("2027-01-01T00:00:00Z"));
    assert_eq!(active.members[0].verified_by, KeyId("k1".to_string()));
    let hw = new_state
        .high_water
        .get(&("issuer-a".to_string(), PolicyId(Uuid::from_u128(54))))
        .expect("high-water must be set");
    assert_eq!(hw.max_sequence, 1);
}

#[test]
fn t55_invalid_bundle_never_replaces_last_known_good() {
    let good = make_bundle("issuer-a", 1, 55, 1);
    let now = base_now();
    let (state_before, outcome) = apply_bundle(&empty_state(), &good, &trust(), now);
    assert!(matches!(outcome, ActivationOutcome::Activated { .. }));

    let mut tampered = good.clone();
    let mut bytes = tampered.envelope.payload_b64.clone().into_bytes();
    bytes[0] ^= 0xFF;
    tampered.envelope.payload_b64 = String::from_utf8_lossy(&bytes).to_string();
    let (state_after, outcome) = apply_bundle(&state_before, &tampered, &trust(), now);
    assert!(matches!(
        outcome,
        ActivationOutcome::Rejected { rejection: ActivationRejection::NotVerified(_), .. }
    ));
    assert_eq!(state_after, state_before, "tampered sig must not change state");

    let unknown_trust = trust_for("someone-else", &rotated_signing_key());
    let (state_after, outcome) = apply_bundle(&state_before, &good, &unknown_trust, now);
    assert!(matches!(
        outcome,
        ActivationOutcome::Rejected { rejection: ActivationRejection::NotVerified(_), .. }
    ));
    assert_eq!(state_after, state_before, "unknown key must not change state");

    let far_future = now.plus_seconds(400 * 86_400);
    let (state_after, outcome) = apply_bundle(&state_before, &good, &trust(), far_future);
    assert!(matches!(
        outcome,
        ActivationOutcome::Rejected {
            rejection: ActivationRejection::NotVerified(BundleRejection::BundleExpired { .. }),
            ..
        }
    ));
    assert_eq!(state_after, state_before, "expired bundle must not change state");

    let mut oversized = good;
    oversized.envelope.payload_b64 = STANDARD.encode(vec![0u8; MAX_PAYLOAD_BYTES + 1]);
    let (state_after, outcome) = apply_bundle(&state_before, &oversized, &trust(), now);
    assert!(matches!(
        outcome,
        ActivationOutcome::Rejected {
            rejection: ActivationRejection::NotVerified(BundleRejection::PayloadTooLarge { .. }),
            ..
        }
    ));
    assert_eq!(state_after, state_before, "oversized payload must not change state");
}

#[test]
fn t56_sequence_below_high_water_is_rejected() {
    let now = base_now();
    let (state, _) =
        apply_bundle(&empty_state(), &make_bundle("issuer-a", 5, 56, 1), &trust(), now);
    let (state_after, outcome) =
        apply_bundle(&state, &make_bundle("issuer-a", 3, 56, 2), &trust(), now);
    assert!(matches!(
        outcome,
        ActivationOutcome::Rejected {
            rejection: ActivationRejection::SequenceNotAdvanced { candidate: 3, high_water: 5, .. },
            ..
        }
    ));
    assert_eq!(state_after, state);
}

#[test]
fn t57_resubmitting_same_sequence_and_bytes_confirms_and_advances_confirmed_at() {
    let s = make_bundle("issuer-a", 1, 57, 1);
    let now = base_now();
    let (state, _) = apply_bundle(&empty_state(), &s, &trust(), now);
    let original_confirmed_at = state.active.as_ref().unwrap().members[0].confirmed_at;
    let later = now.plus_seconds(3600);
    let (state_after, outcome) = apply_bundle(&state, &s, &trust(), later);
    match outcome {
        ActivationOutcome::Confirmed { policy_id: pid, confirmed_at, .. } => {
            assert_eq!(pid, PolicyId(Uuid::from_u128(57)));
            assert_eq!(confirmed_at, later);
        }
        other => panic!("expected Confirmed, got {other:?}"),
    }
    let new_confirmed_at = state_after.active.as_ref().unwrap().members[0].confirmed_at;
    assert_eq!(new_confirmed_at, later);
    assert_ne!(new_confirmed_at, original_confirmed_at);
}

#[test]
fn t58_same_sequence_different_bytes_is_sequence_reused() {
    let now = base_now();
    let (state, _) =
        apply_bundle(&empty_state(), &make_bundle("issuer-a", 1, 58, 1), &trust(), now);
    let (state_after, outcome) =
        apply_bundle(&state, &make_bundle("issuer-a", 1, 58, 2), &trust(), now);
    assert!(matches!(
        outcome,
        ActivationOutcome::Rejected {
            rejection: ActivationRejection::SequenceReused { .. },
            ..
        }
    ));
    assert_eq!(state_after, state);
}

#[test]
fn t59_high_water_survives_rollback() {
    let now = base_now();
    let (state, _) =
        apply_bundle(&empty_state(), &make_bundle("issuer-a", 5, 59, 1), &trust(), now);
    let (state, _) = apply_bundle(&state, &make_bundle("issuer-a", 7, 59, 2), &trust(), now);
    let mut rolled_back = state.clone();
    rolled_back.active = state.last_known_good.clone();
    rolled_back.pending = None;
    let (state_after, outcome) =
        apply_bundle(&rolled_back, &make_bundle("issuer-a", 6, 59, 3), &trust(), now);
    assert!(
        matches!(
            outcome,
            ActivationOutcome::Rejected {
                rejection: ActivationRejection::SequenceNotAdvanced { .. },
                ..
            }
        ),
        "high-water (max_sequence=7) must still reject sequence 6 after rollback"
    );
    assert_eq!(
        state_after
            .high_water
            .get(&("issuer-a".to_string(), PolicyId(Uuid::from_u128(59))))
            .unwrap()
            .max_sequence,
        7,
        "rollback must never lower the high-water mark"
    );
}

#[test]
fn t60_cross_lineage_independence() {
    let now = base_now();
    let (state, outcome1) =
        apply_bundle(&empty_state(), &make_bundle("issuer-a", 7, 601, 1), &trust(), now);
    assert!(matches!(outcome1, ActivationOutcome::Activated { .. }));
    let (state_after, outcome2) =
        apply_bundle(&state, &make_bundle("issuer-a", 6, 602, 2), &trust(), now);
    assert!(
        matches!(outcome2, ActivationOutcome::Activated { .. }),
        "a different policy_id lineage from the same issuer must not be blocked by p1's high-water"
    );
    assert_eq!(state_after.active.unwrap().members.len(), 2);
}

#[test]
fn t61_issuer_mismatch_for_lineage_is_rejected() {
    let now = base_now();
    let (state, _) =
        apply_bundle(&empty_state(), &make_bundle("issuer-a", 1, 61, 1), &trust(), now);
    let candidate_b = verify(&make_bundle("issuer-b", 1, 61, 2), &trust(), now).unwrap();
    let rejection = evaluate_activation(&candidate_b, &state, now).unwrap_err();
    assert!(matches!(rejection, ActivationRejection::IssuerMismatchForLineage { .. }));
}

#[test]
fn t62_multi_lineage_generation_preserves_independent_confirmed_at() {
    let now = base_now();
    let first = make_bundle("issuer-a", 1, 621, 1);
    let (state, _) = apply_bundle(&empty_state(), &first, &trust(), now);
    let (state, _) = apply_bundle(&state, &make_bundle("issuer-a", 1, 622, 2), &trust(), now);
    let later = now.plus_seconds(7200);
    let (state_after, _) = apply_bundle(&state, &first, &trust(), later);
    let active = state_after.active.unwrap();
    let find = |n: u128| {
        active.members.iter().find(|m| m.policy_id == PolicyId(Uuid::from_u128(n))).unwrap()
    };
    assert_eq!(find(621).confirmed_at, later, "p1 was re-confirmed");
    assert_eq!(find(622).confirmed_at, now, "p2's clock must be untouched by p1's confirm");
}

#[test]
fn t63_into_bound_revisions_failure_leaves_cache_untouched() {
    let mut d = draft(cloud_sync_content(true));
    d.policy_id = PolicyId(Uuid::from_u128(63));
    d.revision = 1;
    d.pinned_fields = SortedSet::new().with(PolicyFieldId::EgressCloudSyncAllowed);
    let revision = d.publish("2026-01-01T00:00:00Z".to_string()).unwrap();
    let binding = PolicyBinding {
        binding_id: Uuid::from_u128(1),
        scope: TargetScope::LocalUser,
        selector: TargetSelector::default(),
        revision_ref: revision.reference(),
    };
    let s = submission(
        payload_for("issuer-a", 1, 2, revision, vec![binding]),
        "k1",
        &primary_signing_key(),
    );
    let state = empty_state();
    let (state_after, outcome) = apply_bundle(&state, &s, &trust(), base_now());
    assert!(matches!(
        outcome,
        ActivationOutcome::Rejected {
            rejection: ActivationRejection::BindingsUnusable(_),
            ..
        }
    ));
    assert_eq!(state_after, state, "cache must be untouched by a bindings failure");
}

fn cached_ref(
    policy_id: u128,
    confirmed_at: Timestamp,
    expires_at: Timestamp,
) -> CachedBundleRef {
    CachedBundleRef {
        bundle_id: Uuid::from_u128(policy_id + 1),
        issuer: "issuer-a".to_string(),
        sequence: 1,
        policy_id: PolicyId(Uuid::from_u128(policy_id)),
        revision: 1,
        revision_digest: digest_of(&PolicyRevisionBody {
            schema_version: POLICY_SCHEMA_VERSION,
            policy_id: PolicyId(Uuid::from_u128(policy_id)),
            revision: 1,
            supersedes: None,
            published_at: "2026-01-01T00:00:00Z".to_string(),
            display_name: "x".to_string(),
            content: PolicyContent::default(),
            pinned_fields: SortedSet::new(),
        }),
        payload_digest: PayloadDigest::from_text("sha256:test-fixture-payload-digest".to_string()),
        verified_by: KeyId("k1".to_string()),
        not_before: confirmed_at,
        expires_at,
        first_activated_at: confirmed_at,
        confirmed_at,
    }
}

fn seconds(low: u32, elevated: u32, high: u32, critical: u32) -> RiskClassSeconds {
    RiskClassSeconds { low, elevated, high, critical }
}

const YEAR: u32 = 365 * 86_400;

#[test]
fn t64_risk_classes_diverge_at_the_same_now() {
    let confirmed_at = at("2026-01-01T00:00:00Z");
    let member = cached_ref(64, confirmed_at, confirmed_at.plus_seconds(YEAR));
    let max_age = seconds(1000, 1000, 100, 50);
    let now = confirmed_at.plus_seconds(500);
    let mf = member_freshness(&member, max_age, 10_000, now);
    assert_eq!(mf.tier_by_risk.low, FreshnessTier::Fresh);
    assert_eq!(mf.tier_by_risk.elevated, FreshnessTier::Fresh);
    assert_eq!(mf.tier_by_risk.high, FreshnessTier::Stale);
    assert_eq!(mf.age_seconds, 500);
}

#[test]
fn t65_grace_expired_only_past_confirmed_at_plus_max_age_plus_grace() {
    let confirmed_at = at("2026-01-01T00:00:00Z");
    let member = cached_ref(65, confirmed_at, confirmed_at.plus_seconds(YEAR));
    let max_age = seconds(100, 100, 100, 100);
    let grace = 100u32;
    let just_stale = confirmed_at.plus_seconds(150);
    let mf = member_freshness(&member, max_age, grace, just_stale);
    assert_eq!(mf.tier_by_risk.low, FreshnessTier::Stale);
    let past_grace = confirmed_at.plus_seconds(300);
    let mf = member_freshness(&member, max_age, grace, past_grace);
    assert_eq!(mf.tier_by_risk.low, FreshnessTier::GraceExpired);
}

#[test]
fn t66_now_past_expires_at_alone_yields_exactly_stale_never_grace_expired() {
    let confirmed_at = at("2026-01-01T00:00:00Z");
    let member = cached_ref(66, confirmed_at, confirmed_at.plus_seconds(10));
    let max_age = seconds(1_000_000, 1_000_000, 1_000_000, 1_000_000);
    let now = confirmed_at.plus_seconds(20);
    let mf = member_freshness(&member, max_age, 1_000_000, now);
    assert_eq!(mf.tier_by_risk.low, FreshnessTier::Stale);
    assert_eq!(mf.tier_by_risk.critical, FreshnessTier::Stale);
}

#[test]
fn t67_generation_tier_is_the_strictest_member() {
    let confirmed_at = at("2026-01-01T00:00:00Z");
    let far_expiry = confirmed_at.plus_seconds(YEAR);
    let fresh_member = cached_ref(671, confirmed_at, far_expiry);
    let stale_member = cached_ref(672, at("2025-12-31T21:13:20Z"), far_expiry);
    let max_age = seconds(100_000, 100_000, 100_000, 100_000);
    let now = confirmed_at.plus_seconds(1);
    let members = vec![fresh_member, stale_member];
    let pf = freshness(&members, true, max_age, 100_000, now);
    let pf2 = freshness(&members, true, seconds(100, 100, 100, 100), 0, now);
    assert_eq!(pf2.tier_by_risk.low, FreshnessTier::GraceExpired);
    assert_eq!(pf.members.len(), 2);
    assert_eq!(pf.members[1].age_seconds, 10_001);
    assert_eq!(pf.tier_by_risk.low, FreshnessTier::Fresh);
}

#[test]
fn t68_floor_never_loosens_the_resolved_outcome() {
    let risks = [RiskClass::Low, RiskClass::Elevated, RiskClass::High, RiskClass::Critical];
    let tiers = [
        FreshnessTier::Unconfigured,
        FreshnessTier::Fresh,
        FreshnessTier::Stale,
        FreshnessTier::GraceExpired,
    ];
    let outcomes = [
        EnforcementOutcome::Allow,
        EnforcementOutcome::ObserveOnly,
        EnforcementOutcome::Warn,
        EnforcementOutcome::Block,
    ];
    for &risk in &risks {
        for &tier in &tiers {
            for &outcome in &outcomes {
                let effective = effective_outcome(outcome, risk, tier);
                assert!(
                    effective >= outcome,
                    "effective_outcome({outcome:?}, {risk:?}, {tier:?}) = {effective:?} must be >= {outcome:?}"
                );
            }
        }
    }
}

#[test]
fn t69_unconfigured_has_no_floor_and_grace_expired_baseline_has_floors() {
    for risk in [RiskClass::Low, RiskClass::Elevated, RiskClass::High, RiskClass::Critical] {
        assert_eq!(staleness_floor(risk, FreshnessTier::Unconfigured), None);
    }
    let members: Vec<CachedBundleRef> = Vec::new();
    let pf = freshness(&members, true, seconds(1, 1, 1, 1), 1, base_now());
    assert_eq!(pf.tier_by_risk.critical, FreshnessTier::GraceExpired);
    assert_eq!(
        effective_outcome(
            EnforcementOutcome::Allow,
            RiskClass::Critical,
            pf.tier_by_risk.critical
        ),
        EnforcementOutcome::Block
    );
    let pf_unconfigured = freshness(&members, false, seconds(1, 1, 1, 1), 1, base_now());
    assert_eq!(pf_unconfigured.tier_by_risk.critical, FreshnessTier::Unconfigured);
    assert_eq!(
        effective_outcome(
            EnforcementOutcome::Allow,
            RiskClass::Critical,
            pf_unconfigured.tier_by_risk.critical
        ),
        EnforcementOutcome::Allow,
        "a fresh install must not silently gain blocking power"
    );
}

#[test]
fn t70_unmatched_action_class_reads_observe_only_at_every_tier() {
    let resolved = ResolvedPolicy {
        values: ResolvedValues { enforcement_rules: Vec::new(), ..PolicyContent::baseline() },
        provenance: PolicyFieldId::all()
            .into_iter()
            .map(|f| (f, FieldProvenance::Baseline))
            .collect(),
        contributing: Vec::new(),
    };
    for tier in [
        FreshnessTier::Unconfigured,
        FreshnessTier::Fresh,
        FreshnessTier::Stale,
        FreshnessTier::GraceExpired,
    ] {
        let ep = EffectivePolicy {
            resolved: resolved.clone(),
            freshness: PolicyFreshness {
                tier_by_risk: RiskClassTiers::uniform(tier),
                members: Vec::new(),
                evaluated_at: base_now(),
            },
        };
        assert_eq!(
            ep.enforcement_outcome_for(&ActionClass::ShellCommand, Verdict::Contradicted),
            EnforcementOutcome::ObserveOnly
        );
    }
}

#[test]
fn a_matched_action_class_is_held_to_the_floor_of_its_own_risk() {
    let rule = EnforcementRule {
        action_class: ActionClass::ShellCommand,
        risk_class: RiskClass::Critical,
        outcomes: VerdictOutcomes::uniform(EnforcementOutcome::Allow),
    };
    let ep = EffectivePolicy {
        resolved: ResolvedPolicy {
            values: ResolvedValues {
                enforcement_rules: vec![rule],
                ..PolicyContent::baseline()
            },
            provenance: Vec::new(),
            contributing: Vec::new(),
        },
        freshness: PolicyFreshness {
            tier_by_risk: RiskClassTiers {
                low: FreshnessTier::Fresh,
                elevated: FreshnessTier::Fresh,
                high: FreshnessTier::Fresh,
                critical: FreshnessTier::GraceExpired,
            },
            members: Vec::new(),
            evaluated_at: base_now(),
        },
    };
    assert_eq!(
        ep.enforcement_outcome_for(&ActionClass::ShellCommand, Verdict::Verified),
        EnforcementOutcome::Block
    );
    assert_eq!(
        ep.enforcement_outcome_for(&ActionClass::CodeEdit, Verdict::Verified),
        EnforcementOutcome::ObserveOnly
    );
}

fn entry(target: RevocationTarget, reason: &str) -> RevocationEntry {
    RevocationEntry {
        target,
        revoked_at: "2026-01-01T00:00:00Z".to_string(),
        reason: reason.to_string(),
        audit_ref: None,
        superseded_by: None,
    }
}

fn revision_digest_entry(digest: &str, reason: &str) -> RevocationEntry {
    entry(
        RevocationTarget::RevisionDigest { digest: RevisionDigest::from_text(digest.to_string()) },
        reason,
    )
}

fn hit_meta(reason: &str) -> RevocationHitMeta {
    RevocationHitMeta {
        reason: reason.to_string(),
        revoked_at: "2026-01-01T00:00:00Z".to_string(),
    }
}

fn list_payload(issuer: &str, sequence: u64, entries: Vec<RevocationEntry>) -> RevocationPayload {
    RevocationPayload {
        revocation_schema_version: REVOCATION_SCHEMA_VERSION,
        issuer: issuer.to_string(),
        sequence,
        issued_at: "2026-01-01T00:00:00Z".to_string(),
        entries,
    }
}

fn list_envelope(payload_bytes: &[u8], domain: &[u8]) -> SignedRevocationList {
    SignedRevocationList {
        revocation_schema_version: REVOCATION_SCHEMA_VERSION,
        payload_b64: STANDARD.encode(payload_bytes),
        signatures: vec![sign(domain, payload_bytes, "k1", &primary_signing_key())],
    }
}

fn verify_list(payload: RevocationPayload) -> Result<VerifiedRevocationList, RevocationRejection> {
    let bytes = format!("{payload:?}").into_bytes();
    let envelope = list_envelope(&bytes, &REVOCATION_SIGNING_DOMAIN);
    let authenticated = authenticate_revocation_list(Ok(envelope), &trust(), base_now())?;
    verify_revocation_list(authenticated, Ok(payload))
}

#[test]
fn a_revocation_list_never_expires() {
    let entries = vec![entry(RevocationTarget::Unrecognized, "reason")];
    let bytes = format!("{:?}", list_payload("issuer-a", 1, entries)).into_bytes();
    let envelope = list_envelope(&bytes, &REVOCATION_SIGNING_DOMAIN);
    let read = |now: Timestamp| {
        authenticate_revocation_list(Ok(envelope.clone()), &trust(), now).map_err(|e| format!("{e:?}"))
    };
    let early = read(at("1999-01-01T00:00:00Z"));
    assert!(early.is_ok());
    assert_eq!(early, read(at("2999-01-01T00:00:00Z")));
}

fn build_verified_bundle(
    revision: PublishedPolicyRevision,
    bundle_id: u128,
    sequence: u64,
) -> VerifiedPolicyBundle {
    let binding = org_binding("org-1", &revision, 77);
    let s = submission(
        payload_for("fornax-cloud-test", sequence, bundle_id, revision, vec![binding]),
        "k1",
        &primary_signing_key(),
    );
    verify(&s, &trust(), base_now()).expect("bundle must verify")
}

#[test]
fn t78_revoked_bundle_still_passes_verify_bundle_but_is_rejected_at_activation() {
    let revision = sample_revision();
    let candidate = build_verified_bundle(revision.clone(), 1, 1);
    let binding = org_binding("org-1", &revision, 77);
    let again = submission(
        payload_for("fornax-cloud-test", 1, 1, revision, vec![binding]),
        "k1",
        &primary_signing_key(),
    );
    assert!(
        verify(&again, &trust(), base_now()).is_ok(),
        "verify_bundle must still accept a revoked-but-validly-signed bundle"
    );

    let mut revocations = RevocationSet::default();
    revocations.revision_digests = revocations
        .revision_digests
        .with(candidate.revision().digest().clone(), hit_meta("compromised signing key"));
    let outcome = evaluate_activation(&candidate, &state_with(revocations), base_now());
    assert!(
        matches!(outcome, Err(ActivationRejection::Revoked { .. })),
        "a revoked bundle must be rejected by evaluate_activation, not by verify_bundle"
    );
}

#[test]
fn t82_revocation_by_payload_digest_catches_exact_resubmission() {
    let candidate = build_verified_bundle(sample_revision(), 1, 1);
    let mut revocations = RevocationSet::default();
    revocations.payload_digests = revocations
        .payload_digests
        .with(candidate.payload_digest().clone(), hit_meta("leaked bundle"));
    let outcome = evaluate_activation(&candidate, &state_with(revocations), base_now());
    assert!(matches!(outcome, Err(ActivationRejection::Revoked { .. })));
}

#[test]
fn t83_revocation_by_revision_digest_catches_a_rewrapped_bundle() {
    let revision = sample_revision();
    let original = build_verified_bundle(revision.clone(), 1, 1);
    let rewrapped = build_verified_bundle(revision, 2, 2);
    assert_ne!(
        original.payload_digest(),
        rewrapped.payload_digest(),
        "a re-wrap must produce a different payload_digest (different bundle_id/sequence)"
    );
    assert_eq!(
        original.revision().digest(),
        rewrapped.revision().digest(),
        "a re-wrap shares the same underlying revision digest"
    );
    let mut revocations = RevocationSet::default();
    revocations.revision_digests = revocations
        .revision_digests
        .with(original.revision().digest().clone(), hit_meta("compromised revision"));
    let outcome = evaluate_activation(&rewrapped, &state_with(revocations), base_now());
    assert!(matches!(outcome, Err(ActivationRejection::Revoked { .. })));
}

#[test]
fn t86_lower_sequence_is_rejected_and_entries_are_never_removed() {
    let candidate5 = verify_list(list_payload(
        "issuer-a",
        5,
        vec![revision_digest_entry(
            "sha256:aaaaaaaaaaaaaaaaaaaaaaaaaaaaaaaaaaaaaaaaaaaaaaaaaaaaaaaaaaaaaaaa",
            "r1",
        )],
    ))
    .expect("verify seq5");

    let mut state = empty_state();
    let decision = evaluate_revocation_ingest(&candidate5, &state, base_now())
        .expect("seq5 must be accepted against an empty state");
    let RevocationIngestDecision::Apply { new_entries, .. } = decision else {
        panic!("expected Apply");
    };
    assert_eq!(new_entries.len(), 1);
    state.revocations.max_sequence_by_issuer =
        state.revocations.max_sequence_by_issuer.with("issuer-a".to_string(), 5);
    for e in &new_entries {
        if let RevocationTarget::RevisionDigest { digest } = &e.target {
            state.revocations.revision_digests = state
                .revocations
                .revision_digests
                .clone()
                .with(digest.clone(), hit_meta(&e.reason));
        }
    }

    let candidate3 = verify_list(list_payload("issuer-a", 3, vec![])).expect("verify seq3");
    let rejection = evaluate_revocation_ingest(&candidate3, &state, base_now())
        .expect_err("seq3 must be rejected: it is below the seq5 high-water");
    assert!(matches!(rejection, RevocationIngestRejection::SequenceNotAdvanced { .. }));
    assert_eq!(state.revocations.revision_digests.len(), 1);

    let candidate7 = verify_list(list_payload(
        "issuer-a",
        7,
        vec![revision_digest_entry(
            "sha256:bbbbbbbbbbbbbbbbbbbbbbbbbbbbbbbbbbbbbbbbbbbbbbbbbbbbbbbbbbbbbbbb",
            "r2",
        )],
    ))
    .expect("verify seq7");
    let decision7 = evaluate_revocation_ingest(&candidate7, &state, base_now())
        .expect("seq7 must be accepted: it advances past seq5");
    let RevocationIngestDecision::Apply { new_entries, .. } = decision7 else {
        panic!("expected Apply");
    };
    assert_eq!(new_entries.len(), 1, "only the genuinely new entry is returned");
}

#[test]
fn t87_unknown_target_kind_alongside_a_known_entry_applies_the_known_one() {
    let known = revision_digest_entry(
        "sha256:cccccccccccccccccccccccccccccccccccccccccccccccccccccccccccccc",
        "known-bad",
    );
    let unknown = entry(RevocationTarget::Unrecognized, "future-reason");
    let verified = verify_list(list_payload("issuer-a", 1, vec![known, unknown]))
        .expect("list with one unknown entry kind must still parse");
    assert_eq!(verified.entries().len(), 2);
    let unrecognized_count = verified
        .entries()
        .iter()
        .filter(|e| matches!(e.target, RevocationTarget::Unrecognized))
        .count();
    assert_eq!(unrecognized_count, 1);

    let decision = evaluate_revocation_ingest(&verified, &empty_state(), base_now())
        .expect("must be accepted");
    let RevocationIngestDecision::Apply { new_entries, .. } = decision else {
        panic!("expected Apply");
    };
    assert_eq!(new_entries.len(), 2);
    assert!(new_entries
        .iter()
        .any(|e| matches!(e.target, RevocationTarget::RevisionDigest { .. })));
    assert!(new_entries.iter().any(|e| matches!(e.target, RevocationTarget::Unrecognized)));
}

#[test]
fn t88_domain_separation_both_directions() {
    let list_bytes = format!("{:?}", list_payload("issuer-a", 1, vec![])).into_bytes();
    let wrong_list = list_envelope(&list_bytes, &BUNDLE_SIGNING_DOMAIN);
    let result = authenticate_revocation_list(Ok(wrong_list), &trust(), base_now());
    assert!(
        result.is_err(),
        "a revocation payload signed under BUNDLE_SIGNING_DOMAIN must be rejected"
    );

    let revision = sample_revision();
    let binding = org_binding("org-1", &revision, 1);
    let mut s = submission(
        payload_for("fornax-cloud-test", 1, 2, revision, vec![binding]),
        "k1",
        &primary_signing_key(),
    );
    let bytes = STANDARD.decode(&s.envelope.payload_b64).unwrap();
    s.envelope.signatures =
        vec![sign(&REVOCATION_SIGNING_DOMAIN, &bytes, "k1", &primary_signing_key())];
    assert!(
        verify(&s, &trust(), base_now()).is_err(),
        "a bundle payload signed under REVOCATION_SIGNING_DOMAIN must be rejected"
    );
}

#[test]
fn single_bit_changes_to_an_envelope_never_authenticate() {
    let payload = list_payload("issuer-a", 1, vec![]);
    let bytes = format!("{payload:?}").into_bytes();
    let valid = list_envelope(&bytes, &REVOCATION_SIGNING_DOMAIN);
    assert!(authenticate_revocation_list(Ok(valid.clone()), &trust(), base_now()).is_ok());
    for i in 0..valid.payload_b64.len() {
        for bit in 0..7u8 {
            let mut text = valid.payload_b64.clone().into_bytes();
            text[i] ^= 1 << bit;
            let mut mutated = valid.clone();
            mutated.payload_b64 = String::from_utf8(text).unwrap();
            assert!(
                authenticate_revocation_list(Ok(mutated), &trust(), base_now()).is_err(),
                "payload byte {i} bit {bit}"
            );
        }
    }
    for i in 0..valid.signatures[0].signature_b64.len() {
        for bit in 0..7u8 {
            let mut text = valid.signatures[0].signature_b64.clone().into_bytes();
            text[i] ^= 1 << bit;
            let mut mutated = valid.clone();
            mutated.signatures[0].signature_b64 = String::from_utf8(text).unwrap();
            assert!(
                authenticate_revocation_list(Ok(mutated), &trust(), base_now()).is_err(),
                "signature byte {i} bit {bit}"
            );
        }
    }
}

fn device_ctx() -> DeviceContext {
    DeviceContext {
        org_id: Some("org-1".to_string()),
        team_ids: SortedSet::new(),
        project_ids: SortedSet::new(),
        device_id: "device-1".to_string(),
        provider: Provider::ClaudeCode,
        capabilities: RuntimeCapabilities {
            schema_version: CAPABILITY_SCHEMA_VERSION,
            provider: Provider::ClaudeCode,
            signals: vec![],
            notes: SortedMap::new(),
        },
        os_family: OsFamily::Linux,
    }
}

#[test]
fn t93_the_honest_test_empty_cache_reads_observe_only_everywhere_but_posture_is_degraded() {
    let baseline = PolicyContent::baseline();
    let resolved = resolve(&[], &device_ctx());
    let pf = freshness(
        &[],
        true,
        baseline.cache_max_age_seconds_by_risk,
        baseline.cache_offline_grace_seconds,
        base_now(),
    );
    let effective = EffectivePolicy { resolved: resolved.0, freshness: pf };
    for ac in [
        ActionClass::CodeEdit,
        ActionClass::ShellCommand,
        ActionClass::VersionControlWrite,
        ActionClass::NetworkFetch,
        ActionClass::PackageInstall,
        ActionClass::CredentialAccess,
        ActionClass::InfrastructureMutation,
        ActionClass::DataEgress,
    ] {
        for v in [
            Verdict::Verified,
            Verdict::Unverified,
            Verdict::Contradicted,
            Verdict::Review,
            Verdict::Unavailable,
        ] {
            assert_eq!(
                effective.enforcement_outcome_for(&ac, v),
                EnforcementOutcome::ObserveOnly,
                "with zero rules, every action class/verdict combination must read ObserveOnly"
            );
        }
    }
    let posture = compute_posture(
        true,
        true,
        &[PolicyDiagnostic::new(
            DiagnosticCode::PolicyCacheRevoked,
            DiagnosticSeverity::Error,
            "revoked".to_string(),
            "publish a fresh bundle",
        )],
    );
    assert!(matches!(
        posture,
        PolicyPosture::Degraded { reason: PolicyDegradationReason::Revoked }
    ));
}

#[test]
fn revocation_lists_are_refused_for_each_problem() {
    let mut p = list_payload("issuer-a", 1, vec![]);
    p.revocation_schema_version = 2;
    assert_eq!(
        verify_list(p).unwrap_err(),
        RevocationRejection::SchemaVersionMismatch { envelope: 1, payload: 2 }
    );
    let mut p = list_payload("issuer-a", 1, vec![]);
    p.issued_at = "soon".to_string();
    assert_eq!(
        verify_list(p).unwrap_err(),
        RevocationRejection::MalformedTimestamp { field: "issued_at", value: "soon".to_string() }
    );
    let mut late = revision_digest_entry("sha256:aa", "r");
    late.revoked_at = "later".to_string();
    assert_eq!(
        verify_list(list_payload("issuer-a", 1, vec![revision_digest_entry("sha256:bb", "r"), late]))
            .unwrap_err(),
        RevocationRejection::EntryTimestampMalformed { index: 1, value: "later".to_string() }
    );
    assert_eq!(
        verify_list(list_payload(
            "issuer-a",
            1,
            vec![revision_digest_entry("sha256:aa", " \t")]
        ))
        .unwrap_err(),
        RevocationRejection::EmptyReason { index: 0 }
    );
    assert_eq!(
        verify_list(list_payload("  ", 1, vec![])).unwrap_err(),
        RevocationRejection::EmptyIssuer
    );
    let many = vec![revision_digest_entry("sha256:aa", "r"); 4097];
    assert_eq!(
        verify_list(list_payload("issuer-a", 1, many)).unwrap_err(),
        RevocationRejection::TooManyEntries { found: 4097, max: 4096 }
    );
    let read = verify_list(list_payload("issuer-a", 9, vec![])).unwrap();
    assert_eq!(read.issuer(), "issuer-a");
    assert_eq!(read.sequence(), 9);
    assert_eq!(read.verified_by(), &KeyId("k1".to_string()));
    assert_eq!(
        authenticate_revocation_list(Err("eof".to_string()), &trust(), base_now()).unwrap_err(),
        RevocationRejection::MalformedEnvelope { detail: "eof".to_string() }
    );
}

//! Local policy cache: activation, rollback defence and staleness floors.
//!
//! Everything here is pure: the current instant is always a parameter. A
//! generation is a set of verified bundle references, at most one per policy.
//! The high-water marks that defend against rollback are kept apart from the
//! generations. A stale bundle is never discarded; it only raises a floor
//! under what enforcement does.
use vstd::prelude::*;

use super::bundle::{
    joined_bindings, BundleRejection, BundleRejectionModel, KeyId, PayloadDigest,
    VerifiedPolicyBundle, VerifiedPolicyBundleModel,
};
use super::content::{
    find_rule, first_rule, ActionClass, EnforcementOutcome, EnforcementRuleModel, RiskClass,
    RiskClassSeconds,
};
use super::diagnostics::{
    DiagnosticCode, PolicyDiagnostic, PolicyDiagnosticModel, PolicyValidationReport,
};
use super::resolve::{ResolvedPolicy, ResolvedPolicyModel};
use super::revision::{PolicyId, RevisionDigest};
use super::revocation::{
    RevocationEntry, RevocationEntryModel, RevocationTarget, RevocationTargetModel,
    VerifiedRevocationList,
};
use crate::evidence::Verdict;
use crate::ident::Uuid;
use crate::model::{deep_seq, lemma_deep_push, Deep, Tag};
use crate::order::{
    entry_keys, law_stable_sort_is_sorted_permutation, lemma_sorted_map_keys, listing,
    nondecreasing, number_key, stable_sort, stably_sorted, OrderKey, Ordered, SortedMap, Sortable,
};
use crate::text::{quote_debug, str_before, str_debug, text_before};
use crate::time::{
    moved_forward, parse_relaxed, relaxed_rfc3339, whole_seconds, Timestamp, MAX_SECONDS,
};

verus! {

pub const POLICY_CACHE_SCHEMA_VERSION: u32 = 1;

/// A cached bundle, without its content.
#[derive(Debug, Clone, PartialEq, Eq)]
pub struct CachedBundleRef {
    pub bundle_id: Uuid,
    pub issuer: String,
    pub sequence: u64,
    pub policy_id: PolicyId,
    pub revision: u32,
    pub revision_digest: RevisionDigest,
    pub payload_digest: PayloadDigest,
    pub verified_by: KeyId,
    pub not_before: Timestamp,
    pub expires_at: Timestamp,
    pub first_activated_at: Timestamp,
    /// The freshness clock, advanced when the same bundle is submitted again.
    pub confirmed_at: Timestamp,
}

/// The mathematical value of a [`CachedBundleRef`].
#[verifier::ext_equal]
pub struct CachedBundleRefModel {
    pub bundle_id: Uuid,
    pub issuer: Seq<char>,
    pub sequence: u64,
    pub policy_id: PolicyId,
    pub revision: u32,
    pub revision_digest: Seq<char>,
    pub payload_digest: Seq<char>,
    pub verified_by: Seq<char>,
    pub not_before: Timestamp,
    pub expires_at: Timestamp,
    pub first_activated_at: Timestamp,
    pub confirmed_at: Timestamp,
}

impl DeepView for CachedBundleRef {
    type V = CachedBundleRefModel;

    open spec fn deep_view(&self) -> CachedBundleRefModel {
        CachedBundleRefModel {
            bundle_id: self.bundle_id.deep_view(),
            issuer: self.issuer.deep_view(),
            sequence: self.sequence.deep_view(),
            policy_id: self.policy_id.deep_view(),
            revision: self.revision.deep_view(),
            revision_digest: self.revision_digest.deep_view(),
            payload_digest: self.payload_digest.deep_view(),
            verified_by: self.verified_by.deep_view(),
            not_before: self.not_before.deep_view(),
            expires_at: self.expires_at.deep_view(),
            first_activated_at: self.first_activated_at.deep_view(),
            confirmed_at: self.confirmed_at.deep_view(),
        }
    }
}

impl Deep for CachedBundleRef {
    fn deep_clone(&self) -> (r: Self) {
        CachedBundleRef {
            bundle_id: self.bundle_id.deep_clone(),
            issuer: self.issuer.deep_clone(),
            sequence: self.sequence.deep_clone(),
            policy_id: self.policy_id.deep_clone(),
            revision: self.revision.deep_clone(),
            revision_digest: self.revision_digest.deep_clone(),
            payload_digest: self.payload_digest.deep_clone(),
            verified_by: self.verified_by.deep_clone(),
            not_before: self.not_before.deep_clone(),
            expires_at: self.expires_at.deep_clone(),
            first_activated_at: self.first_activated_at.deep_clone(),
            confirmed_at: self.confirmed_at.deep_clone(),
        }
    }

    fn deep_eq(&self, other: &Self) -> (r: bool) {
        self.bundle_id.deep_eq(&other.bundle_id)
            && self.issuer.deep_eq(&other.issuer)
            && self.sequence.deep_eq(&other.sequence)
            && self.policy_id.deep_eq(&other.policy_id)
            && self.revision.deep_eq(&other.revision)
            && self.revision_digest.deep_eq(&other.revision_digest)
            && self.payload_digest.deep_eq(&other.payload_digest)
            && self.verified_by.deep_eq(&other.verified_by)
            && self.not_before.deep_eq(&other.not_before)
            && self.expires_at.deep_eq(&other.expires_at)
            && self.first_activated_at.deep_eq(&other.first_activated_at)
            && self.confirmed_at.deep_eq(&other.confirmed_at)
    }
}

/// An immutable set of bundle references, at most one per policy, sorted by
/// policy.
#[derive(Debug, Clone, PartialEq, Eq)]
pub struct CacheGeneration {
    pub generation: u64,
    pub members: Vec<CachedBundleRef>,
    pub written_at: Timestamp,
}

/// The mathematical value of a [`CacheGeneration`].
#[verifier::ext_equal]
pub struct CacheGenerationModel {
    pub generation: u64,
    pub members: Seq<CachedBundleRefModel>,
    pub written_at: Timestamp,
}

impl DeepView for CacheGeneration {
    type V = CacheGenerationModel;

    open spec fn deep_view(&self) -> CacheGenerationModel {
        CacheGenerationModel {
            generation: self.generation.deep_view(),
            members: self.members.deep_view(),
            written_at: self.written_at.deep_view(),
        }
    }
}

impl Deep for CacheGeneration {
    fn deep_clone(&self) -> (r: Self) {
        CacheGeneration {
            generation: self.generation.deep_clone(),
            members: self.members.deep_clone(),
            written_at: self.written_at.deep_clone(),
        }
    }

    fn deep_eq(&self, other: &Self) -> (r: bool) {
        self.generation.deep_eq(&other.generation)
            && self.members.deep_eq(&other.members)
            && self.written_at.deep_eq(&other.written_at)
    }
}

#[derive(Debug, Clone, Copy, PartialEq, Eq, Structural)]
pub enum CacheSlotKind {
    Active,
    Pending,
    LastKnownGood,
}

impl DeepView for CacheSlotKind {
    type V = CacheSlotKind;

    open spec fn deep_view(&self) -> CacheSlotKind {
        *self
    }
}

impl Deep for CacheSlotKind {
    fn deep_clone(&self) -> (r: Self) {
        *self
    }

    fn deep_eq(&self, other: &Self) -> (r: bool) {
        *self == *other
    }
}

/// The highest sequence seen of a policy from an issuer. Never lowered.
#[derive(Debug, Clone, PartialEq, Eq)]
pub struct SequenceHighWater {
    pub issuer: String,
    pub policy_id: PolicyId,
    pub max_sequence: u64,
    pub last_bundle_id: Uuid,
    pub last_payload_digest: PayloadDigest,
    pub last_seen_at: Timestamp,
}

/// The mathematical value of a [`SequenceHighWater`].
#[verifier::ext_equal]
pub struct SequenceHighWaterModel {
    pub issuer: Seq<char>,
    pub policy_id: PolicyId,
    pub max_sequence: u64,
    pub last_bundle_id: Uuid,
    pub last_payload_digest: Seq<char>,
    pub last_seen_at: Timestamp,
}

impl DeepView for SequenceHighWater {
    type V = SequenceHighWaterModel;

    open spec fn deep_view(&self) -> SequenceHighWaterModel {
        SequenceHighWaterModel {
            issuer: self.issuer.deep_view(),
            policy_id: self.policy_id.deep_view(),
            max_sequence: self.max_sequence.deep_view(),
            last_bundle_id: self.last_bundle_id.deep_view(),
            last_payload_digest: self.last_payload_digest.deep_view(),
            last_seen_at: self.last_seen_at.deep_view(),
        }
    }
}

impl Deep for SequenceHighWater {
    fn deep_clone(&self) -> (r: Self) {
        SequenceHighWater {
            issuer: self.issuer.deep_clone(),
            policy_id: self.policy_id.deep_clone(),
            max_sequence: self.max_sequence.deep_clone(),
            last_bundle_id: self.last_bundle_id.deep_clone(),
            last_payload_digest: self.last_payload_digest.deep_clone(),
            last_seen_at: self.last_seen_at.deep_clone(),
        }
    }

    fn deep_eq(&self, other: &Self) -> (r: bool) {
        self.issuer.deep_eq(&other.issuer)
            && self.policy_id.deep_eq(&other.policy_id)
            && self.max_sequence.deep_eq(&other.max_sequence)
            && self.last_bundle_id.deep_eq(&other.last_bundle_id)
            && self.last_payload_digest.deep_eq(&other.last_payload_digest)
            && self.last_seen_at.deep_eq(&other.last_seen_at)
    }
}

/// What was found revoked, and why.
#[derive(Debug, Clone, PartialEq, Eq)]
pub struct RevocationHit {
    pub target: RevocationTarget,
    pub reason: String,
    pub revoked_at: String,
}

/// The mathematical value of a [`RevocationHit`].
#[verifier::ext_equal]
pub struct RevocationHitModel {
    pub target: RevocationTargetModel,
    pub reason: Seq<char>,
    pub revoked_at: Seq<char>,
}

impl DeepView for RevocationHit {
    type V = RevocationHitModel;

    open spec fn deep_view(&self) -> RevocationHitModel {
        RevocationHitModel {
            target: self.target.deep_view(),
            reason: self.reason.deep_view(),
            revoked_at: self.revoked_at.deep_view(),
        }
    }
}

impl Deep for RevocationHit {
    fn deep_clone(&self) -> (r: Self) {
        RevocationHit {
            target: self.target.deep_clone(),
            reason: self.reason.deep_clone(),
            revoked_at: self.revoked_at.deep_clone(),
        }
    }

    fn deep_eq(&self, other: &Self) -> (r: bool) {
        self.target.deep_eq(&other.target)
            && self.reason.deep_eq(&other.reason)
            && self.revoked_at.deep_eq(&other.revoked_at)
    }
}

#[derive(Debug, Clone, PartialEq, Eq)]
pub struct RevocationHitMeta {
    pub reason: String,
    pub revoked_at: String,
}

/// The mathematical value of a [`RevocationHitMeta`].
#[verifier::ext_equal]
pub struct RevocationHitMetaModel {
    pub reason: Seq<char>,
    pub revoked_at: Seq<char>,
}

impl DeepView for RevocationHitMeta {
    type V = RevocationHitMetaModel;

    open spec fn deep_view(&self) -> RevocationHitMetaModel {
        RevocationHitMetaModel {
            reason: self.reason.deep_view(),
            revoked_at: self.revoked_at.deep_view(),
        }
    }
}

impl Deep for RevocationHitMeta {
    fn deep_clone(&self) -> (r: Self) {
        RevocationHitMeta {
            reason: self.reason.deep_clone(),
            revoked_at: self.revoked_at.deep_clone(),
        }
    }

    fn deep_eq(&self, other: &Self) -> (r: bool) {
        self.reason.deep_eq(&other.reason)
            && self.revoked_at.deep_eq(&other.revoked_at)
    }
}

/// The local, growing set of revoked digests. An entry of any trusted issuer
/// revokes a digest.
#[derive(Debug, Clone, PartialEq, Eq)]
pub struct RevocationSet {
    pub revision_digests: SortedMap<RevisionDigest, RevocationHitMeta>,
    pub payload_digests: SortedMap<PayloadDigest, RevocationHitMeta>,
    pub max_sequence_by_issuer: SortedMap<String, u64>,
    pub unrecognized_entry_count: u64,
}

/// The mathematical value of a [`RevocationSet`].
#[verifier::ext_equal]
pub struct RevocationSetModel {
    pub revision_digests: Map<Seq<char>, RevocationHitMetaModel>,
    pub payload_digests: Map<Seq<char>, RevocationHitMetaModel>,
    pub max_sequence_by_issuer: Map<Seq<char>, u64>,
    pub unrecognized_entry_count: u64,
}

impl DeepView for RevocationSet {
    type V = RevocationSetModel;

    open spec fn deep_view(&self) -> RevocationSetModel {
        RevocationSetModel {
            revision_digests: self.revision_digests.deep_view(),
            payload_digests: self.payload_digests.deep_view(),
            max_sequence_by_issuer: self.max_sequence_by_issuer.deep_view(),
            unrecognized_entry_count: self.unrecognized_entry_count.deep_view(),
        }
    }
}

impl Deep for RevocationSet {
    fn deep_clone(&self) -> (r: Self) {
        RevocationSet {
            revision_digests: self.revision_digests.deep_clone(),
            payload_digests: self.payload_digests.deep_clone(),
            max_sequence_by_issuer: self.max_sequence_by_issuer.deep_clone(),
            unrecognized_entry_count: self.unrecognized_entry_count.deep_clone(),
        }
    }

    fn deep_eq(&self, other: &Self) -> (r: bool) {
        self.revision_digests.deep_eq(&other.revision_digests)
            && self.payload_digests.deep_eq(&other.payload_digests)
            && self.max_sequence_by_issuer.deep_eq(&other.max_sequence_by_issuer)
            && self.unrecognized_entry_count.deep_eq(&other.unrecognized_entry_count)
    }
}

#[derive(Debug, Clone, PartialEq, Eq)]
pub struct PolicyCacheState {
    pub schema_version: u32,
    pub active: Option<CacheGeneration>,
    pub pending: Option<CacheGeneration>,
    pub last_known_good: Option<CacheGeneration>,
    pub high_water: SortedMap<(String, PolicyId), SequenceHighWater>,
    /// Once true, never false again.
    pub ever_configured: bool,
    pub revocations: RevocationSet,
}

/// The mathematical value of a [`PolicyCacheState`].
#[verifier::ext_equal]
pub struct PolicyCacheStateModel {
    pub schema_version: u32,
    pub active: Option<CacheGenerationModel>,
    pub pending: Option<CacheGenerationModel>,
    pub last_known_good: Option<CacheGenerationModel>,
    pub high_water: Map<(Seq<char>, PolicyId), SequenceHighWaterModel>,
    pub ever_configured: bool,
    pub revocations: RevocationSetModel,
}

impl DeepView for PolicyCacheState {
    type V = PolicyCacheStateModel;

    open spec fn deep_view(&self) -> PolicyCacheStateModel {
        PolicyCacheStateModel {
            schema_version: self.schema_version.deep_view(),
            active: self.active.deep_view(),
            pending: self.pending.deep_view(),
            last_known_good: self.last_known_good.deep_view(),
            high_water: self.high_water.deep_view(),
            ever_configured: self.ever_configured.deep_view(),
            revocations: self.revocations.deep_view(),
        }
    }
}

impl Deep for PolicyCacheState {
    fn deep_clone(&self) -> (r: Self) {
        PolicyCacheState {
            schema_version: self.schema_version.deep_clone(),
            active: self.active.deep_clone(),
            pending: self.pending.deep_clone(),
            last_known_good: self.last_known_good.deep_clone(),
            high_water: self.high_water.deep_clone(),
            ever_configured: self.ever_configured.deep_clone(),
            revocations: self.revocations.deep_clone(),
        }
    }

    fn deep_eq(&self, other: &Self) -> (r: bool) {
        self.schema_version.deep_eq(&other.schema_version)
            && self.active.deep_eq(&other.active)
            && self.pending.deep_eq(&other.pending)
            && self.last_known_good.deep_eq(&other.last_known_good)
            && self.high_water.deep_eq(&other.high_water)
            && self.ever_configured.deep_eq(&other.ever_configured)
            && self.revocations.deep_eq(&other.revocations)
    }
}

#[derive(Debug, Clone, PartialEq, Eq)]
pub enum RevocationIngestRejection {
    SequenceNotAdvanced { issuer: String, candidate: u64, high_water: u64 },
    Persistence { detail: String },
}

/// The mathematical value of a [`RevocationIngestRejection`].
#[verifier::ext_equal]
pub enum RevocationIngestRejectionModel {
    SequenceNotAdvanced { issuer: Seq<char>, candidate: u64, high_water: u64 },
    Persistence { detail: Seq<char> },
}

impl DeepView for RevocationIngestRejection {
    type V = RevocationIngestRejectionModel;

    open spec fn deep_view(&self) -> RevocationIngestRejectionModel {
        match self {
            RevocationIngestRejection::SequenceNotAdvanced { issuer, candidate, high_water } => RevocationIngestRejectionModel::SequenceNotAdvanced {
                issuer: issuer.deep_view(),
                candidate: candidate.deep_view(),
                high_water: high_water.deep_view(),
            },
            RevocationIngestRejection::Persistence { detail } => RevocationIngestRejectionModel::Persistence {
                detail: detail.deep_view(),
            },
        }
    }
}

#[derive(Debug, Clone, PartialEq, Eq)]
pub enum RevocationIngestDecision {
    Apply { issuer: String, sequence: u64, new_entries: Vec<RevocationEntry>, superseded_sequence: Option<u64> },
    AlreadyCurrent { issuer: String, sequence: u64 },
}

/// The mathematical value of a [`RevocationIngestDecision`].
#[verifier::ext_equal]
pub enum RevocationIngestDecisionModel {
    Apply { issuer: Seq<char>, sequence: u64, new_entries: Seq<RevocationEntryModel>, superseded_sequence: Option<u64> },
    AlreadyCurrent { issuer: Seq<char>, sequence: u64 },
}

impl DeepView for RevocationIngestDecision {
    type V = RevocationIngestDecisionModel;

    open spec fn deep_view(&self) -> RevocationIngestDecisionModel {
        match self {
            RevocationIngestDecision::Apply { issuer, sequence, new_entries, superseded_sequence } => RevocationIngestDecisionModel::Apply {
                issuer: issuer.deep_view(),
                sequence: sequence.deep_view(),
                new_entries: new_entries.deep_view(),
                superseded_sequence: superseded_sequence.deep_view(),
            },
            RevocationIngestDecision::AlreadyCurrent { issuer, sequence } => RevocationIngestDecisionModel::AlreadyCurrent {
                issuer: issuer.deep_view(),
                sequence: sequence.deep_view(),
            },
        }
    }
}

#[derive(Debug, Clone, Copy, PartialEq, Eq, Structural)]
pub enum PolicyDegradationReason {
    Revoked,
    Unverifiable,
    TrustStoreUnavailable,
    NoUsableGeneration,
}

impl DeepView for PolicyDegradationReason {
    type V = PolicyDegradationReason;

    open spec fn deep_view(&self) -> PolicyDegradationReason {
        *self
    }
}

impl Deep for PolicyDegradationReason {
    fn deep_clone(&self) -> (r: Self) {
        *self
    }

    fn deep_eq(&self, other: &Self) -> (r: bool) {
        *self == *other
    }
}

/// Whether policy enforcement has something to go by.
#[derive(Debug, Clone, Copy, PartialEq, Eq, Structural)]
pub enum PolicyPosture {
    Normal,
    Degraded { reason: PolicyDegradationReason },
}

/// How fresh a policy is, in increasing strictness.
#[derive(Debug, Clone, Copy, PartialEq, Eq, PartialOrd, Ord, Structural)]
pub enum FreshnessTier {
    Unconfigured,
    Fresh,
    Stale,
    GraceExpired,
}

impl DeepView for FreshnessTier {
    type V = FreshnessTier;

    open spec fn deep_view(&self) -> FreshnessTier {
        *self
    }
}

impl Deep for FreshnessTier {
    fn deep_clone(&self) -> (r: Self) {
        *self
    }

    fn deep_eq(&self, other: &Self) -> (r: bool) {
        *self == *other
    }
}

impl FreshnessTier {
    /// Position in the order the variants are declared in.
    pub open spec fn rank(self) -> int {
        match self {
            FreshnessTier::Unconfigured => 0,
            FreshnessTier::Fresh => 1,
            FreshnessTier::Stale => 2,
            FreshnessTier::GraceExpired => 3,
        }
    }

    fn rank_of(&self) -> (r: u8)
        ensures
            r == self.rank(),
    {
        match self {
            FreshnessTier::Unconfigured => 0,
            FreshnessTier::Fresh => 1,
            FreshnessTier::Stale => 2,
            FreshnessTier::GraceExpired => 3,
        }
    }
}

impl FreshnessTier {
    /// The stricter of two tiers.
    pub open spec fn stricter(a: FreshnessTier, b: FreshnessTier) -> FreshnessTier {
        if a.rank() > b.rank() {
            a
        } else {
            b
        }
    }

    fn max_of(a: FreshnessTier, b: FreshnessTier) -> (r: FreshnessTier)
        ensures
            r == Self::stricter(a, b),
    {
        if a.rank_of() > b.rank_of() {
            a
        } else {
            b
        }
    }
}

/// One tier for each risk class.
#[derive(Debug, Clone, Copy, PartialEq, Eq, Structural)]
pub struct RiskClassTiers {
    pub low: FreshnessTier,
    pub elevated: FreshnessTier,
    pub high: FreshnessTier,
    pub critical: FreshnessTier,
}

impl DeepView for RiskClassTiers {
    type V = RiskClassTiers;

    open spec fn deep_view(&self) -> RiskClassTiers {
        *self
    }
}

impl Deep for RiskClassTiers {
    fn deep_clone(&self) -> (r: Self) {
        *self
    }

    fn deep_eq(&self, other: &Self) -> (r: bool) {
        *self == *other
    }
}

impl RiskClassTiers {
    /// The tier for one risk class.
    pub open spec fn tier(self, risk: RiskClass) -> FreshnessTier {
        match risk {
            RiskClass::Low => self.low,
            RiskClass::Elevated => self.elevated,
            RiskClass::High => self.high,
            RiskClass::Critical => self.critical,
        }
    }

    /// The same tier for every risk class.
    pub open spec fn all(t: FreshnessTier) -> Self {
        RiskClassTiers { low: t, elevated: t, high: t, critical: t }
    }

    pub fn uniform(t: FreshnessTier) -> (r: Self)
        ensures
            r == Self::all(t),
            forall|risk: RiskClass| #[trigger] r.tier(risk) == t,
    {
        RiskClassTiers { low: t, elevated: t, high: t, critical: t }
    }

    pub fn for_risk(&self, r: RiskClass) -> (tier: FreshnessTier)
        ensures
            tier == self.tier(r),
    {
        match r {
            RiskClass::Low => self.low,
            RiskClass::Elevated => self.elevated,
            RiskClass::High => self.high,
            RiskClass::Critical => self.critical,
        }
    }

    /// The stricter tier for each risk class.
    pub open spec fn met(a: Self, b: Self) -> Self {
        RiskClassTiers {
            low: FreshnessTier::stricter(a.low, b.low),
            elevated: FreshnessTier::stricter(a.elevated, b.elevated),
            high: FreshnessTier::stricter(a.high, b.high),
            critical: FreshnessTier::stricter(a.critical, b.critical),
        }
    }

    pub fn meet(a: Self, b: Self) -> (r: Self)
        ensures
            r == Self::met(a, b),
            forall|risk: RiskClass| #[trigger]
                r.tier(risk) == FreshnessTier::stricter(a.tier(risk), b.tier(risk)),
    {
        RiskClassTiers {
            low: FreshnessTier::max_of(a.low, b.low),
            elevated: FreshnessTier::max_of(a.elevated, b.elevated),
            high: FreshnessTier::max_of(a.high, b.high),
            critical: FreshnessTier::max_of(a.critical, b.critical),
        }
    }
}

#[derive(Debug, Clone, PartialEq, Eq)]
pub struct MemberFreshness {
    pub bundle_id: Uuid,
    pub policy_id: PolicyId,
    pub confirmed_at: Timestamp,
    pub expires_at: Timestamp,
    pub age_seconds: u64,
    pub tier_by_risk: RiskClassTiers,
}

/// The mathematical value of a [`MemberFreshness`].
#[verifier::ext_equal]
pub struct MemberFreshnessModel {
    pub bundle_id: Uuid,
    pub policy_id: PolicyId,
    pub confirmed_at: Timestamp,
    pub expires_at: Timestamp,
    pub age_seconds: u64,
    pub tier_by_risk: RiskClassTiers,
}

impl DeepView for MemberFreshness {
    type V = MemberFreshnessModel;

    open spec fn deep_view(&self) -> MemberFreshnessModel {
        MemberFreshnessModel {
            bundle_id: self.bundle_id.deep_view(),
            policy_id: self.policy_id.deep_view(),
            confirmed_at: self.confirmed_at.deep_view(),
            expires_at: self.expires_at.deep_view(),
            age_seconds: self.age_seconds.deep_view(),
            tier_by_risk: self.tier_by_risk.deep_view(),
        }
    }
}

impl Deep for MemberFreshness {
    fn deep_clone(&self) -> (r: Self) {
        MemberFreshness {
            bundle_id: self.bundle_id.deep_clone(),
            policy_id: self.policy_id.deep_clone(),
            confirmed_at: self.confirmed_at.deep_clone(),
            expires_at: self.expires_at.deep_clone(),
            age_seconds: self.age_seconds.deep_clone(),
            tier_by_risk: self.tier_by_risk.deep_clone(),
        }
    }

    fn deep_eq(&self, other: &Self) -> (r: bool) {
        self.bundle_id.deep_eq(&other.bundle_id)
            && self.policy_id.deep_eq(&other.policy_id)
            && self.confirmed_at.deep_eq(&other.confirmed_at)
            && self.expires_at.deep_eq(&other.expires_at)
            && self.age_seconds.deep_eq(&other.age_seconds)
            && self.tier_by_risk.deep_eq(&other.tier_by_risk)
    }
}

#[derive(Debug, Clone, PartialEq, Eq)]
pub struct PolicyFreshness {
    pub tier_by_risk: RiskClassTiers,
    pub members: Vec<MemberFreshness>,
    pub evaluated_at: Timestamp,
}

/// The mathematical value of a [`PolicyFreshness`].
#[verifier::ext_equal]
pub struct PolicyFreshnessModel {
    pub tier_by_risk: RiskClassTiers,
    pub members: Seq<MemberFreshnessModel>,
    pub evaluated_at: Timestamp,
}

impl DeepView for PolicyFreshness {
    type V = PolicyFreshnessModel;

    open spec fn deep_view(&self) -> PolicyFreshnessModel {
        PolicyFreshnessModel {
            tier_by_risk: self.tier_by_risk.deep_view(),
            members: self.members.deep_view(),
            evaluated_at: self.evaluated_at.deep_view(),
        }
    }
}

impl Deep for PolicyFreshness {
    fn deep_clone(&self) -> (r: Self) {
        PolicyFreshness {
            tier_by_risk: self.tier_by_risk.deep_clone(),
            members: self.members.deep_clone(),
            evaluated_at: self.evaluated_at.deep_clone(),
        }
    }

    fn deep_eq(&self, other: &Self) -> (r: bool) {
        self.tier_by_risk.deep_eq(&other.tier_by_risk)
            && self.members.deep_eq(&other.members)
            && self.evaluated_at.deep_eq(&other.evaluated_at)
    }
}

/// What is enforced: what was resolved, and how fresh it is.
#[derive(Debug, Clone, PartialEq, Eq)]
pub struct EffectivePolicy {
    pub resolved: ResolvedPolicy,
    pub freshness: PolicyFreshness,
}

/// The mathematical value of a [`EffectivePolicy`].
#[verifier::ext_equal]
pub struct EffectivePolicyModel {
    pub resolved: ResolvedPolicyModel,
    pub freshness: PolicyFreshnessModel,
}

impl DeepView for EffectivePolicy {
    type V = EffectivePolicyModel;

    open spec fn deep_view(&self) -> EffectivePolicyModel {
        EffectivePolicyModel {
            resolved: self.resolved.deep_view(),
            freshness: self.freshness.deep_view(),
        }
    }
}

impl Deep for EffectivePolicy {
    fn deep_clone(&self) -> (r: Self) {
        EffectivePolicy {
            resolved: self.resolved.deep_clone(),
            freshness: self.freshness.deep_clone(),
        }
    }

    fn deep_eq(&self, other: &Self) -> (r: bool) {
        self.resolved.deep_eq(&other.resolved)
            && self.freshness.deep_eq(&other.freshness)
    }
}

/// Why a candidate is not activated.
#[derive(Debug, Clone, PartialEq, Eq)]
pub enum ActivationRejection {
    NotVerified(BundleRejection),
    SequenceNotAdvanced { issuer: String, policy_id: PolicyId, candidate: u64, high_water: u64 },
    SequenceReused { policy_id: PolicyId, sequence: u64, recorded_bundle_id: Uuid },
    IssuerMismatchForLineage { policy_id: PolicyId, bound_issuer: String, candidate_issuer: String },
    BindingsUnusable(PolicyValidationReport),
    Persistence { detail: String },
    Revoked { policy_id: PolicyId, target: RevocationTarget, reason: String, revoked_at: String },
}

/// The mathematical value of a [`ActivationRejection`].
#[verifier::ext_equal]
pub enum ActivationRejectionModel {
    NotVerified(BundleRejectionModel),
    SequenceNotAdvanced { issuer: Seq<char>, policy_id: PolicyId, candidate: u64, high_water: u64 },
    SequenceReused { policy_id: PolicyId, sequence: u64, recorded_bundle_id: Uuid },
    IssuerMismatchForLineage { policy_id: PolicyId, bound_issuer: Seq<char>, candidate_issuer: Seq<char> },
    BindingsUnusable(Seq<PolicyDiagnosticModel>),
    Persistence { detail: Seq<char> },
    Revoked { policy_id: PolicyId, target: RevocationTargetModel, reason: Seq<char>, revoked_at: Seq<char> },
}

impl DeepView for ActivationRejection {
    type V = ActivationRejectionModel;

    open spec fn deep_view(&self) -> ActivationRejectionModel {
        match self {
            ActivationRejection::NotVerified(v) => ActivationRejectionModel::NotVerified(v.deep_view()),
            ActivationRejection::SequenceNotAdvanced { issuer, policy_id, candidate, high_water } => ActivationRejectionModel::SequenceNotAdvanced {
                issuer: issuer.deep_view(),
                policy_id: policy_id.deep_view(),
                candidate: candidate.deep_view(),
                high_water: high_water.deep_view(),
            },
            ActivationRejection::SequenceReused { policy_id, sequence, recorded_bundle_id } => ActivationRejectionModel::SequenceReused {
                policy_id: policy_id.deep_view(),
                sequence: sequence.deep_view(),
                recorded_bundle_id: recorded_bundle_id.deep_view(),
            },
            ActivationRejection::IssuerMismatchForLineage { policy_id, bound_issuer, candidate_issuer } => ActivationRejectionModel::IssuerMismatchForLineage {
                policy_id: policy_id.deep_view(),
                bound_issuer: bound_issuer.deep_view(),
                candidate_issuer: candidate_issuer.deep_view(),
            },
            ActivationRejection::BindingsUnusable(v) => ActivationRejectionModel::BindingsUnusable(v.deep_view()),
            ActivationRejection::Persistence { detail } => ActivationRejectionModel::Persistence {
                detail: detail.deep_view(),
            },
            ActivationRejection::Revoked { policy_id, target, reason, revoked_at } => ActivationRejectionModel::Revoked {
                policy_id: policy_id.deep_view(),
                target: target.deep_view(),
                reason: reason.deep_view(),
                revoked_at: revoked_at.deep_view(),
            },
        }
    }
}

#[derive(Debug, Clone, PartialEq, Eq)]
pub enum ActivationDecision {
    Activate { members: Vec<CachedBundleRef>, replaced: Option<PolicyId> },
    Confirm { policy_id: PolicyId, bundle_id: Uuid, payload_digest: PayloadDigest },
}

/// The mathematical value of a [`ActivationDecision`].
#[verifier::ext_equal]
pub enum ActivationDecisionModel {
    Activate { members: Seq<CachedBundleRefModel>, replaced: Option<PolicyId> },
    Confirm { policy_id: PolicyId, bundle_id: Uuid, payload_digest: Seq<char> },
}

impl DeepView for ActivationDecision {
    type V = ActivationDecisionModel;

    open spec fn deep_view(&self) -> ActivationDecisionModel {
        match self {
            ActivationDecision::Activate { members, replaced } => ActivationDecisionModel::Activate {
                members: members.deep_view(),
                replaced: replaced.deep_view(),
            },
            ActivationDecision::Confirm { policy_id, bundle_id, payload_digest } => ActivationDecisionModel::Confirm {
                policy_id: policy_id.deep_view(),
                bundle_id: bundle_id.deep_view(),
                payload_digest: payload_digest.deep_view(),
            },
        }
    }
}

/// What became of a submitted bundle.
#[derive(Debug, Clone, PartialEq, Eq)]
pub enum ActivationOutcome {
    Activated { generation: u64, superseded: Option<u64>, replaced_member: Option<PolicyId> },
    Confirmed { generation: u64, policy_id: PolicyId, confirmed_at: Timestamp },
    Rejected { rejection: ActivationRejection, active_generation: Option<u64> },
}

/// High-water marks sort by issuer, then by policy.
impl Sortable for (String, PolicyId) {
    open spec fn sort_key(v: (Seq<char>, PolicyId)) -> OrderKey {
        OrderKey { rank: 0, text: v.0, tail: v.1.0.0 as int }
    }

    fn sorts_before(&self, other: &Self) -> (r: bool) {
        if self.0 == other.0 {
            proof {
                crate::text::lemma_text_irreflexive(self.0@);
            }
            self.1.0.0 < other.1.0.0
        } else {
            str_before(self.0.as_str(), other.0.as_str())
        }
    }
}

impl Ordered for (String, PolicyId) {
    proof fn key_is_injective(a: (Seq<char>, PolicyId), b: (Seq<char>, PolicyId)) {
    }
}

/// Members of a generation sort by policy.
impl Sortable for CachedBundleRef {
    open spec fn sort_key(v: CachedBundleRefModel) -> OrderKey {
        number_key(v.policy_id.0.0 as int)
    }

    fn sorts_before(&self, other: &Self) -> (r: bool) {
        proof {
            reveal_with_fuel(text_before, 2);
        }
        self.policy_id.0.0 < other.policy_id.0.0
    }
}

/// What a set says about a bundle: its revision digest is looked up first,
/// then its payload digest.
pub open spec fn revocation_of(
    set: RevocationSetModel,
    revision: Seq<char>,
    payload: Seq<char>,
) -> Option<RevocationHitModel> {
    if set.revision_digests.dom().contains(revision) {
        Some(
            RevocationHitModel {
                target: RevocationTargetModel::RevisionDigest { digest: revision },
                reason: set.revision_digests[revision].reason,
                revoked_at: set.revision_digests[revision].revoked_at,
            },
        )
    } else if set.payload_digests.dom().contains(payload) {
        Some(
            RevocationHitModel {
                target: RevocationTargetModel::PayloadDigest { digest: payload },
                reason: set.payload_digests[payload].reason,
                revoked_at: set.payload_digests[payload].revoked_at,
            },
        )
    } else {
        None
    }
}

impl Default for RevocationSet {
    fn default() -> (r: Self)
        ensures
            r.deep_view() == (RevocationSetModel {
                revision_digests: Map::empty(),
                payload_digests: Map::empty(),
                max_sequence_by_issuer: Map::empty(),
                unrecognized_entry_count: 0,
            }),
    {
        RevocationSet {
            revision_digests: SortedMap::new(),
            payload_digests: SortedMap::new(),
            max_sequence_by_issuer: SortedMap::new(),
            unrecognized_entry_count: 0,
        }
    }
}

impl RevocationSet {
    /// Whether a bundle is revoked, by its revision or by its payload. A
    /// bundle wrapped anew keeps its revision digest.
    pub fn hit(&self, rev: &RevisionDigest, payload: &PayloadDigest) -> (r: Option<RevocationHit>)
        ensures
            r.deep_view() == revocation_of(
                self.deep_view(),
                rev.deep_view(),
                payload.deep_view(),
            ),
    {
        if let Some(meta) = self.revision_digests.get(rev) {
            return Some(
                RevocationHit {
                    target: RevocationTarget::RevisionDigest { digest: rev.deep_clone() },
                    reason: meta.reason.clone(),
                    revoked_at: meta.revoked_at.clone(),
                },
            );
        }
        if let Some(meta) = self.payload_digests.get(payload) {
            return Some(
                RevocationHit {
                    target: RevocationTarget::PayloadDigest { digest: payload.deep_clone() },
                    reason: meta.reason.clone(),
                    revoked_at: meta.revoked_at.clone(),
                },
            );
        }
        None
    }
}

/// Whether an entry names a digest that a set already holds. An entry of an
/// unrecognised kind names none.
pub open spec fn already_revoked(set: RevocationSetModel, entry: RevocationEntryModel) -> bool {
    match entry.target {
        RevocationTargetModel::RevisionDigest { digest } => set.revision_digests.dom().contains(
            digest,
        ),
        RevocationTargetModel::PayloadDigest { digest } => set.payload_digests.dom().contains(
            digest,
        ),
        RevocationTargetModel::Unrecognized => false,
    }
}

/// The entries that a set does not hold yet, in order.
pub open spec fn new_entries(
    set: RevocationSetModel,
    entries: Seq<RevocationEntryModel>,
) -> Seq<RevocationEntryModel>
    decreases entries.len(),
{
    if entries.len() == 0 {
        Seq::empty()
    } else if already_revoked(set, entries.last()) {
        new_entries(set, entries.drop_last())
    } else {
        new_entries(set, entries.drop_last()).push(entries.last())
    }
}

/// What to do with a list from an issuer.
pub open spec fn ingest_decision(
    set: RevocationSetModel,
    issuer: Seq<char>,
    sequence: u64,
    entries: Seq<RevocationEntryModel>,
) -> Result<RevocationIngestDecisionModel, RevocationIngestRejectionModel> {
    let seen = set.max_sequence_by_issuer;
    if seen.dom().contains(issuer) && sequence < seen[issuer] {
        Err(
            RevocationIngestRejectionModel::SequenceNotAdvanced {
                issuer,
                candidate: sequence,
                high_water: seen[issuer],
            },
        )
    } else if seen.dom().contains(issuer) && sequence == seen[issuer] {
        Ok(RevocationIngestDecisionModel::AlreadyCurrent { issuer, sequence })
    } else {
        Ok(
            RevocationIngestDecisionModel::Apply {
                issuer,
                sequence,
                new_entries: new_entries(set, entries),
                superseded_sequence: if seen.dom().contains(issuer) {
                    Some(seen[issuer])
                } else {
                    None
                },
            },
        )
    }
}

fn is_new_entry(set: &RevocationSet, entry: &RevocationEntry) -> (r: bool)
    ensures
        r == !already_revoked(set.deep_view(), entry.deep_view()),
{
    match &entry.target {
        RevocationTarget::RevisionDigest { digest } => set.revision_digests.get(digest).is_none(),
        RevocationTarget::PayloadDigest { digest } => set.payload_digests.get(digest).is_none(),
        RevocationTarget::Unrecognized => true,
    }
}

/// Decides what to do with a verified list. A list behind what has been seen
/// of its issuer is refused, the same one again changes nothing, and a later
/// one adds the entries that are not recorded yet. Nothing is ever taken
/// away.
pub fn evaluate_revocation_ingest(
    candidate: &VerifiedRevocationList,
    state: &PolicyCacheState,
    _now: Timestamp,
) -> (r: Result<RevocationIngestDecision, RevocationIngestRejection>)
    ensures
        match r {
            Ok(d) => ingest_decision(
                state.revocations.deep_view(),
                candidate.deep_view().payload.issuer,
                candidate.deep_view().payload.sequence,
                candidate.deep_view().payload.entries,
            ) == Ok::<RevocationIngestDecisionModel, RevocationIngestRejectionModel>(
                d.deep_view(),
            ),
            Err(e) => ingest_decision(
                state.revocations.deep_view(),
                candidate.deep_view().payload.issuer,
                candidate.deep_view().payload.sequence,
                candidate.deep_view().payload.entries,
            ) == Err::<RevocationIngestDecisionModel, RevocationIngestRejectionModel>(
                e.deep_view(),
            ),
        },
{
    let issuer = candidate.issuer().to_owned();
    let sequence = candidate.sequence();
    let seen: Option<u64> = match state.revocations.max_sequence_by_issuer.get(&issuer) {
        Some(hw) => Some(*hw),
        None => None,
    };
    if let Some(hw) = seen {
        if sequence < hw {
            return Err(
                RevocationIngestRejection::SequenceNotAdvanced {
                    issuer,
                    candidate: sequence,
                    high_water: hw,
                },
            );
        }
        if sequence == hw {
            return Ok(RevocationIngestDecision::AlreadyCurrent { issuer, sequence });
        }
    }
    let entries = candidate.entries();
    let ghost all = entries.deep_view();
    let ghost set = state.revocations.deep_view();
    let mut out: Vec<RevocationEntry> = Vec::new();
    let mut i: usize = 0;
    assert(out.deep_view() =~= Seq::<RevocationEntryModel>::empty());
    while i < entries.len()
        invariant
            i <= entries.len(),
            all == entries.deep_view(),
            set == state.revocations.deep_view(),
            out.deep_view() == new_entries(set, all.take(i as int)),
        decreases entries.len() - i,
    {
        proof {
            assert(all.take(i as int + 1).drop_last() =~= all.take(i as int));
            assert(all.take(i as int + 1).last() == entries@[i as int].deep_view());
        }
        if is_new_entry(&state.revocations, &entries[i]) {
            let e = entries[i].deep_clone();
            let ghost before = out;
            out.push(e);
            proof {
                lemma_deep_push(before, out, e);
            }
        }
        i = i + 1;
    }
    assert(all.take(all.len() as int) =~= all);
    Ok(
        RevocationIngestDecision::Apply {
            issuer,
            sequence,
            new_entries: out,
            superseded_sequence: seen,
        },
    )
}

/// Whether a diagnostic with a code is among `diagnostics`.
pub open spec fn reported(diagnostics: Seq<PolicyDiagnosticModel>, code: DiagnosticCode) -> bool {
    exists|i: int| 0 <= i < diagnostics.len() && (#[trigger] diagnostics[i]).code == code
}

/// The posture: degraded once something was configured and nothing of it is
/// usable, for the most specific cause reported.
pub open spec fn posture(
    ever_configured: bool,
    usable_is_empty: bool,
    diagnostics: Seq<PolicyDiagnosticModel>,
) -> PolicyPosture {
    if !usable_is_empty || !ever_configured {
        PolicyPosture::Normal
    } else if reported(diagnostics, DiagnosticCode::PolicyCacheRevoked) {
        PolicyPosture::Degraded { reason: PolicyDegradationReason::Revoked }
    } else if reported(diagnostics, DiagnosticCode::PolicyCacheUnverifiable) {
        PolicyPosture::Degraded { reason: PolicyDegradationReason::Unverifiable }
    } else if reported(diagnostics, DiagnosticCode::TrustStoreUnavailable) {
        PolicyPosture::Degraded { reason: PolicyDegradationReason::TrustStoreUnavailable }
    } else {
        PolicyPosture::Degraded { reason: PolicyDegradationReason::NoUsableGeneration }
    }
}

fn has_code(diagnostics: &[PolicyDiagnostic], code: DiagnosticCode) -> (r: bool)
    ensures
        r == reported(deep_seq(diagnostics@), code),
{
    let ghost all = deep_seq(diagnostics@);
    let mut i: usize = 0;
    while i < diagnostics.len()
        invariant
            i <= diagnostics.len(),
            all == deep_seq(diagnostics@),
            forall|j: int| 0 <= j < i ==> (#[trigger] all[j]).code != code,
        decreases diagnostics.len() - i,
    {
        assert(all[i as int] == diagnostics@[i as int].deep_view());
        if diagnostics[i].code == code {
            return true;
        }
        i = i + 1;
    }
    false
}

pub fn compute_posture(
    ever_configured: bool,
    usable_is_empty: bool,
    diagnostics: &[PolicyDiagnostic],
) -> (r: PolicyPosture)
    ensures
        r == posture(ever_configured, usable_is_empty, deep_seq(diagnostics@)),
{
    if !usable_is_empty || !ever_configured {
        return PolicyPosture::Normal;
    }
    if has_code(diagnostics, DiagnosticCode::PolicyCacheRevoked) {
        return PolicyPosture::Degraded { reason: PolicyDegradationReason::Revoked };
    }
    if has_code(diagnostics, DiagnosticCode::PolicyCacheUnverifiable) {
        return PolicyPosture::Degraded { reason: PolicyDegradationReason::Unverifiable };
    }
    if has_code(diagnostics, DiagnosticCode::TrustStoreUnavailable) {
        return PolicyPosture::Degraded { reason: PolicyDegradationReason::TrustStoreUnavailable };
    }
    PolicyPosture::Degraded { reason: PolicyDegradationReason::NoUsableGeneration }
}

/// Whether `a` comes after the instant made of `b`.
pub open spec fn is_after(a: Timestamp, b: (int, int)) -> bool {
    b.0 < a.parts().0 || (b.0 == a.parts().0 && b.1 < a.parts().1)
}

/// The tier of a bundle: past its age limit and the grace after it; past the
/// limit or its own expiry; or fresh.
pub open spec fn freshness_tier(
    confirmed_at: Timestamp,
    expires_at: Timestamp,
    max_age_seconds: u32,
    offline_grace_seconds: u32,
    now: Timestamp,
) -> FreshnessTier {
    let stale_at = moved_forward(confirmed_at.parts(), max_age_seconds as int);
    let grace_expired_at = moved_forward(stale_at, offline_grace_seconds as int);
    if is_after(now, grace_expired_at) {
        FreshnessTier::GraceExpired
    } else if is_after(now, stale_at) || Timestamp::earlier(expires_at, now) {
        FreshnessTier::Stale
    } else {
        FreshnessTier::Fresh
    }
}

/// Whether an age limit and the grace after it can be added to an instant.
pub open spec fn limits_fit(
    confirmed_at: Timestamp,
    max_age: RiskClassSeconds,
    offline_grace_seconds: u32,
) -> bool {
    forall|risk: RiskClass|
        confirmed_at.parts().0 + #[trigger] max_age.seconds(risk) + offline_grace_seconds
            <= MAX_SECONDS
}

fn tier_for_risk(
    confirmed_at: Timestamp,
    expires_at: Timestamp,
    max_age_seconds: u32,
    offline_grace_seconds: u32,
    now: Timestamp,
) -> (r: FreshnessTier)
    requires
        confirmed_at.parts().0 + max_age_seconds + offline_grace_seconds <= MAX_SECONDS,
    ensures
        r == freshness_tier(
            confirmed_at,
            expires_at,
            max_age_seconds,
            offline_grace_seconds,
            now,
        ),
{
    let stale_at = confirmed_at.plus_seconds(max_age_seconds);
    let grace_expired_at = stale_at.plus_seconds(offline_grace_seconds);
    if grace_expired_at.is_before(&now) {
        FreshnessTier::GraceExpired
    } else if stale_at.is_before(&now) || expires_at.is_before(&now) {
        FreshnessTier::Stale
    } else {
        FreshnessTier::Fresh
    }
}

/// The tiers of a bundle, one for each risk class.
pub open spec fn member_tiers(
    m: CachedBundleRefModel,
    max_age: RiskClassSeconds,
    offline_grace_seconds: u32,
    now: Timestamp,
) -> RiskClassTiers {
    RiskClassTiers {
        low: freshness_tier(
            m.confirmed_at,
            m.expires_at,
            max_age.low,
            offline_grace_seconds,
            now,
        ),
        elevated: freshness_tier(
            m.confirmed_at,
            m.expires_at,
            max_age.elevated,
            offline_grace_seconds,
            now,
        ),
        high: freshness_tier(
            m.confirmed_at,
            m.expires_at,
            max_age.high,
            offline_grace_seconds,
            now,
        ),
        critical: freshness_tier(
            m.confirmed_at,
            m.expires_at,
            max_age.critical,
            offline_grace_seconds,
            now,
        ),
    }
}

/// How fresh a bundle is. Its age is never negative.
pub open spec fn freshness_of_member(
    m: CachedBundleRefModel,
    max_age: RiskClassSeconds,
    offline_grace_seconds: u32,
    now: Timestamp,
) -> MemberFreshnessModel {
    let age = whole_seconds(now.parts(), m.confirmed_at.parts());
    MemberFreshnessModel {
        bundle_id: m.bundle_id,
        policy_id: m.policy_id,
        confirmed_at: m.confirmed_at,
        expires_at: m.expires_at,
        age_seconds: if age > 0 {
            age as u64
        } else {
            0
        },
        tier_by_risk: member_tiers(m, max_age, offline_grace_seconds, now),
    }
}

pub fn member_freshness(
    m: &CachedBundleRef,
    max_age: RiskClassSeconds,
    offline_grace_seconds: u32,
    now: Timestamp,
) -> (r: MemberFreshness)
    requires
        limits_fit(m.confirmed_at, max_age, offline_grace_seconds),
    ensures
        r.deep_view() == freshness_of_member(
            m.deep_view(),
            max_age,
            offline_grace_seconds,
            now,
        ),
{
    proof {
        assert(max_age.seconds(RiskClass::Low) == max_age.low);
        assert(max_age.seconds(RiskClass::Elevated) == max_age.elevated);
        assert(max_age.seconds(RiskClass::High) == max_age.high);
        assert(max_age.seconds(RiskClass::Critical) == max_age.critical);
    }
    let tier_by_risk = RiskClassTiers {
        low: tier_for_risk(
            m.confirmed_at,
            m.expires_at,
            max_age.low,
            offline_grace_seconds,
            now,
        ),
        elevated: tier_for_risk(
            m.confirmed_at,
            m.expires_at,
            max_age.elevated,
            offline_grace_seconds,
            now,
        ),
        high: tier_for_risk(
            m.confirmed_at,
            m.expires_at,
            max_age.high,
            offline_grace_seconds,
            now,
        ),
        critical: tier_for_risk(
            m.confirmed_at,
            m.expires_at,
            max_age.critical,
            offline_grace_seconds,
            now,
        ),
    };
    let age = now.seconds_since(&m.confirmed_at);
    MemberFreshness {
        bundle_id: m.bundle_id,
        policy_id: m.policy_id,
        confirmed_at: m.confirmed_at,
        expires_at: m.expires_at,
        age_seconds: if age > 0 {
            age as u64
        } else {
            0
        },
        tier_by_risk,
    }
}

/// The strictest tiers among members.
pub open spec fn strictest_tiers(members: Seq<MemberFreshnessModel>) -> RiskClassTiers
    decreases members.len(),
{
    if members.len() <= 1 {
        members[0].tier_by_risk
    } else {
        RiskClassTiers::met(strictest_tiers(members.drop_last()), members.last().tier_by_risk)
    }
}

/// The freshness of each member.
pub open spec fn freshness_of_members(
    members: Seq<CachedBundleRefModel>,
    max_age: RiskClassSeconds,
    offline_grace_seconds: u32,
    now: Timestamp,
) -> Seq<MemberFreshnessModel> {
    Seq::new(
        members.len(),
        |i: int| freshness_of_member(members[i], max_age, offline_grace_seconds, now),
    )
}

/// How fresh a generation is: as its strictest member. One without members is
/// past its grace if anything was ever configured, and unconfigured if not.
pub open spec fn generation_freshness(
    members: Seq<CachedBundleRefModel>,
    ever_configured: bool,
    max_age: RiskClassSeconds,
    offline_grace_seconds: u32,
    now: Timestamp,
) -> PolicyFreshnessModel {
    let each = freshness_of_members(members, max_age, offline_grace_seconds, now);
    PolicyFreshnessModel {
        tier_by_risk: if members.len() == 0 {
            if ever_configured {
                RiskClassTiers::all(FreshnessTier::GraceExpired)
            } else {
                RiskClassTiers::all(FreshnessTier::Unconfigured)
            }
        } else {
            strictest_tiers(each)
        },
        members: each,
        evaluated_at: now,
    }
}

pub fn freshness(
    members: &[CachedBundleRef],
    ever_configured: bool,
    max_age: RiskClassSeconds,
    offline_grace_seconds: u32,
    now: Timestamp,
) -> (r: PolicyFreshness)
    requires
        forall|i: int|
            0 <= i < members@.len() ==> limits_fit(
                (#[trigger] members@[i]).confirmed_at,
                max_age,
                offline_grace_seconds,
            ),
    ensures
        r.deep_view() == generation_freshness(
            deep_seq(members@),
            ever_configured,
            max_age,
            offline_grace_seconds,
            now,
        ),
{
    let ghost all = deep_seq(members@);
    let ghost want = freshness_of_members(all, max_age, offline_grace_seconds, now);
    let mut each: Vec<MemberFreshness> = Vec::new();
    if members.len() == 0 {
        let tier_by_risk = if ever_configured {
            RiskClassTiers::uniform(FreshnessTier::GraceExpired)
        } else {
            RiskClassTiers::uniform(FreshnessTier::Unconfigured)
        };
        assert(each.deep_view() =~= want);
        return PolicyFreshness { tier_by_risk, members: each, evaluated_at: now };
    }
    let mut tier_by_risk = RiskClassTiers::uniform(FreshnessTier::Unconfigured);
    let mut i: usize = 0;
    assert(each.deep_view() =~= want.take(0));
    while i < members.len()
        invariant
            i <= members.len(),
            members@.len() > 0,
            all == deep_seq(members@),
            want == freshness_of_members(all, max_age, offline_grace_seconds, now),
            forall|j: int|
                0 <= j < members@.len() ==> limits_fit(
                    (#[trigger] members@[j]).confirmed_at,
                    max_age,
                    offline_grace_seconds,
                ),
            each.deep_view() == want.take(i as int),
            i > 0 ==> tier_by_risk == strictest_tiers(want.take(i as int)),
        decreases members.len() - i,
    {
        let mf = member_freshness(&members[i], max_age, offline_grace_seconds, now);
        proof {
            assert(want[i as int] == mf.deep_view());
            assert(want.take(i as int + 1).drop_last() =~= want.take(i as int));
            assert(want.take(i as int + 1).last() == mf.deep_view());
        }
        if i == 0 {
            tier_by_risk = mf.tier_by_risk;
        } else {
            tier_by_risk = RiskClassTiers::meet(tier_by_risk, mf.tier_by_risk);
        }
        let ghost before = each;
        each.push(mf);
        proof {
            lemma_deep_push(before, each, mf);
            assert(each.deep_view() =~= want.take(i as int + 1));
        }
        i = i + 1;
    }
    assert(want.take(want.len() as int) =~= want);
    PolicyFreshness { tier_by_risk, members: each, evaluated_at: now }
}

/// The floor under what enforcement does about a risk class, at a tier. It is
/// built in: a stale policy cannot lower its own floor.
pub open spec fn floor(risk: RiskClass, tier: FreshnessTier) -> Option<EnforcementOutcome> {
    if tier == FreshnessTier::GraceExpired && risk == RiskClass::Critical {
        Some(EnforcementOutcome::Block)
    } else if tier == FreshnessTier::GraceExpired && (risk == RiskClass::Elevated || risk
        == RiskClass::High) {
        Some(EnforcementOutcome::Warn)
    } else if tier == FreshnessTier::Stale && (risk == RiskClass::High || risk
        == RiskClass::Critical) {
        Some(EnforcementOutcome::Warn)
    } else {
        None
    }
}

pub fn staleness_floor(risk: RiskClass, tier: FreshnessTier) -> (r: Option<EnforcementOutcome>)
    ensures
        r == floor(risk, tier),
{
    match (risk, tier) {
        (_, FreshnessTier::Unconfigured) => None,
        (_, FreshnessTier::Fresh) => None,
        (RiskClass::Low, FreshnessTier::Stale) => None,
        (RiskClass::Low, FreshnessTier::GraceExpired) => None,
        (RiskClass::Elevated, FreshnessTier::Stale) => None,
        (RiskClass::Elevated, FreshnessTier::GraceExpired) => Some(EnforcementOutcome::Warn),
        (RiskClass::High, FreshnessTier::Stale) => Some(EnforcementOutcome::Warn),
        (RiskClass::High, FreshnessTier::GraceExpired) => Some(EnforcementOutcome::Warn),
        (RiskClass::Critical, FreshnessTier::Stale) => Some(EnforcementOutcome::Warn),
        (RiskClass::Critical, FreshnessTier::GraceExpired) => Some(EnforcementOutcome::Block),
    }
}

/// The stricter of what was resolved and the floor.
pub open spec fn floored(
    resolved: EnforcementOutcome,
    risk: RiskClass,
    tier: FreshnessTier,
) -> EnforcementOutcome {
    match floor(risk, tier) {
        Some(f) => EnforcementOutcome::stricter(resolved, f),
        None => resolved,
    }
}

pub fn effective_outcome(
    resolved: EnforcementOutcome,
    risk: RiskClass,
    tier: FreshnessTier,
) -> (r: EnforcementOutcome)
    ensures
        r == floored(resolved, risk, tier),
        r.rank() >= resolved.rank(),
{
    match staleness_floor(risk, tier) {
        Some(f) => EnforcementOutcome::max_of(resolved, f),
        None => resolved,
    }
}

/// Staleness only ever tightens: what is enforced is at least as strict as
/// what was resolved, and no tier is enforced less strictly than a fresher
/// one.
pub proof fn law_staleness_only_tightens(
    resolved: EnforcementOutcome,
    risk: RiskClass,
    fresher: FreshnessTier,
    staler: FreshnessTier,
)
    requires
        fresher.rank() <= staler.rank(),
    ensures
        floored(resolved, risk, fresher).rank() >= resolved.rank(),
        floored(resolved, risk, staler).rank() >= floored(resolved, risk, fresher).rank(),
{
}

/// A device on which nothing was ever configured, and one whose policy is
/// fresh, have no floor.
pub proof fn law_no_floor_without_staleness(resolved: EnforcementOutcome, risk: RiskClass)
    ensures
        floored(resolved, risk, FreshnessTier::Unconfigured) == resolved,
        floored(resolved, risk, FreshnessTier::Fresh) == resolved,
        floored(resolved, RiskClass::Low, FreshnessTier::GraceExpired) == resolved,
{
}

/// The generation's tier for a risk class is that of some member, and no
/// member's is stricter.
pub proof fn law_generation_is_as_fresh_as_its_stalest_member(
    members: Seq<MemberFreshnessModel>,
    risk: RiskClass,
)
    requires
        members.len() > 0,
    ensures
        forall|i: int|
            0 <= i < members.len() ==> strictest_tiers(members).tier(risk).rank() >= (
            #[trigger] members[i]).tier_by_risk.tier(risk).rank(),
        exists|i: int|
            0 <= i < members.len() && strictest_tiers(members).tier(risk) == (
            #[trigger] members[i]).tier_by_risk.tier(risk),
    decreases members.len(),
{
    if members.len() == 1 {
        assert(members[0].tier_by_risk.tier(risk) == strictest_tiers(members).tier(risk));
    } else {
        let front = members.drop_last();
        law_generation_is_as_fresh_as_its_stalest_member(front, risk);
        let k = choose|i: int|
            0 <= i < front.len() && strictest_tiers(front).tier(risk) == (
            #[trigger] front[i]).tier_by_risk.tier(risk);
        assert(members[k] == front[k]);
        let n = members.len() - 1;
        assert(members[n] == members.last());
        assert(strictest_tiers(members).tier(risk) == FreshnessTier::stricter(
            strictest_tiers(front).tier(risk),
            members[n].tier_by_risk.tier(risk),
        ));
        assert forall|i: int| 0 <= i < members.len() implies strictest_tiers(members).tier(
            risk,
        ).rank() >= (#[trigger] members[i]).tier_by_risk.tier(risk).rank() by {
            if i < n {
                assert(front[i] == members[i]);
            }
        }
    }
}

/// What is enforced about an action class by the verdict reached: the outcome of its
/// rule, over the floor for the rule's own risk class. A class without a rule
/// is only observed, however stale the policy is.
pub open spec fn enforced_outcome(
    rules: Seq<EnforcementRuleModel>,
    tiers: RiskClassTiers,
    class: Tag,
    verdict: Verdict,
) -> EnforcementOutcome {
    match first_rule(rules, class) {
        Some(rule) => floored(
            rule.outcomes.outcome(verdict),
            rule.risk_class,
            tiers.tier(rule.risk_class),
        ),
        None => EnforcementOutcome::ObserveOnly,
    }
}

impl EffectivePolicy {
    pub fn enforcement_outcome_for(&self, ac: &ActionClass, v: Verdict) -> (r: EnforcementOutcome)
        ensures
            r == enforced_outcome(
                self.resolved.values.enforcement_rules.deep_view(),
                self.freshness.tier_by_risk,
                ac.deep_view(),
                v,
            ),
    {
        match find_rule(&self.resolved.values.enforcement_rules, ac) {
            Some(rule) => effective_outcome(
                rule.outcomes.for_verdict(v),
                rule.risk_class,
                self.freshness.tier_by_risk.for_risk(rule.risk_class),
            ),
            None => EnforcementOutcome::ObserveOnly,
        }
    }
}

/// The first issuer, in order, other than `issuer` that a policy has a
/// high-water mark from.
pub open spec fn other_issuer(
    keys: Seq<(Seq<char>, PolicyId)>,
    policy_id: PolicyId,
    issuer: Seq<char>,
) -> Option<Seq<char>>
    decreases keys.len(),
{
    if keys.len() == 0 {
        None
    } else if keys[0].1 == policy_id && keys[0].0 != issuer {
        Some(keys[0].0)
    } else {
        other_issuer(keys.drop_first(), policy_id, issuer)
    }
}

/// The members without those of a policy, in order.
pub open spec fn without_policy(
    members: Seq<CachedBundleRefModel>,
    policy_id: PolicyId,
) -> Seq<CachedBundleRefModel>
    decreases members.len(),
{
    if members.len() == 0 {
        Seq::empty()
    } else if members.last().policy_id == policy_id {
        without_policy(members.drop_last(), policy_id)
    } else {
        without_policy(members.drop_last(), policy_id).push(members.last())
    }
}

/// Whether a policy has a member.
pub open spec fn has_policy(members: Seq<CachedBundleRefModel>, policy_id: PolicyId) -> bool {
    exists|i: int| 0 <= i < members.len() && (#[trigger] members[i]).policy_id == policy_id
}

/// The members of the active generation.
pub open spec fn active_members(state: PolicyCacheStateModel) -> Seq<CachedBundleRefModel> {
    match state.active {
        Some(g) => g.members,
        None => Seq::empty(),
    }
}

/// The reference a candidate is cached under.
pub open spec fn candidate_member(
    candidate: VerifiedPolicyBundleModel,
    not_before: Timestamp,
    expires_at: Timestamp,
    now: Timestamp,
) -> CachedBundleRefModel {
    CachedBundleRefModel {
        bundle_id: candidate.payload.bundle_id,
        issuer: candidate.payload.provenance.issuer,
        sequence: candidate.payload.sequence,
        policy_id: candidate.payload.revision.body.policy_id,
        revision: candidate.payload.revision.body.revision,
        revision_digest: candidate.payload.revision.digest,
        payload_digest: candidate.payload_digest,
        verified_by: candidate.verified_by,
        not_before,
        expires_at,
        first_activated_at: now,
        confirmed_at: now,
    }
}

pub open spec fn unparsed_detail(field: Seq<char>, value: Seq<char>) -> Seq<char> {
    "candidate "@ + field + " "@ + str_debug(value)
        + " failed to parse after verify_bundle already validated it"@
}

/// What a candidate that moves its policy forward leads to.
pub open spec fn advance(
    candidate: VerifiedPolicyBundleModel,
    state: PolicyCacheStateModel,
    now: Timestamp,
) -> Result<ActivationDecisionModel, ActivationRejectionModel> {
    let payload = candidate.payload;
    let policy_id = payload.revision.body.policy_id;
    let members = active_members(state);
    match joined_bindings(payload.bindings, payload.revision) {
        Err(diagnostics) => Err(ActivationRejectionModel::BindingsUnusable(diagnostics)),
        Ok(_) => match (relaxed_rfc3339(payload.not_before), relaxed_rfc3339(payload.expires_at)) {
            (None, _) => Err(
                ActivationRejectionModel::Persistence {
                    detail: unparsed_detail("not_before"@, payload.not_before),
                },
            ),
            (Some(_), None) => Err(
                ActivationRejectionModel::Persistence {
                    detail: unparsed_detail("expires_at"@, payload.expires_at),
                },
            ),
            (Some(not_before), Some(expires_at)) => Ok(
                ActivationDecisionModel::Activate {
                    members: stably_sorted::<CachedBundleRef>(
                        without_policy(members, policy_id).push(
                            candidate_member(candidate, not_before, expires_at, now),
                        ),
                    ),
                    replaced: if has_policy(members, policy_id) {
                        Some(policy_id)
                    } else {
                        None
                    },
                },
            ),
        },
    }
}

/// What a verified candidate leads to. Revocation outranks everything; then
/// the lineage must keep its issuer, and its sequence must not go back.
pub open spec fn activation(
    candidate: VerifiedPolicyBundleModel,
    state: PolicyCacheStateModel,
    now: Timestamp,
) -> Result<ActivationDecisionModel, ActivationRejectionModel> {
    let payload = candidate.payload;
    let issuer = payload.provenance.issuer;
    let policy_id = payload.revision.body.policy_id;
    let key = (issuer, policy_id);
    let mark = state.high_water[key];
    match revocation_of(state.revocations, payload.revision.digest, candidate.payload_digest) {
        Some(hit) => Err(
            ActivationRejectionModel::Revoked {
                policy_id,
                target: hit.target,
                reason: hit.reason,
                revoked_at: hit.revoked_at,
            },
        ),
        None => match other_issuer(
            listing::<(String, PolicyId)>(state.high_water.dom()),
            policy_id,
            issuer,
        ) {
            Some(bound_issuer) => Err(
                ActivationRejectionModel::IssuerMismatchForLineage {
                    policy_id,
                    bound_issuer,
                    candidate_issuer: issuer,
                },
            ),
            None => if state.high_water.dom().contains(key) && payload.sequence
                < mark.max_sequence {
                Err(
                    ActivationRejectionModel::SequenceNotAdvanced {
                        issuer,
                        policy_id,
                        candidate: payload.sequence,
                        high_water: mark.max_sequence,
                    },
                )
            } else if state.high_water.dom().contains(key) && payload.sequence
                == mark.max_sequence {
                if mark.last_bundle_id == payload.bundle_id && mark.last_payload_digest
                    == candidate.payload_digest {
                    Ok(
                        ActivationDecisionModel::Confirm {
                            policy_id,
                            bundle_id: payload.bundle_id,
                            payload_digest: candidate.payload_digest,
                        },
                    )
                } else {
                    Err(
                        ActivationRejectionModel::SequenceReused {
                            policy_id,
                            sequence: payload.sequence,
                            recorded_bundle_id: mark.last_bundle_id,
                        },
                    )
                }
            } else {
                advance(candidate, state, now)
            },
        },
    }
}

fn find_other_issuer(
    marks: &SortedMap<(String, PolicyId), SequenceHighWater>,
    policy_id: PolicyId,
    issuer: &String,
) -> (r: Option<String>)
    ensures
        r.deep_view() == other_issuer(
            listing::<(String, PolicyId)>(marks.deep_view().dom()),
            policy_id,
            issuer@,
        ),
{
    let entries = marks.as_vec();
    let ghost keys = entry_keys(entries.deep_view());
    let mut i: usize = 0;
    assert(keys.skip(0) =~= keys);
    while i < entries.len()
        invariant
            i <= entries.len(),
            keys == entry_keys(entries.deep_view()),
            keys == listing::<(String, PolicyId)>(marks.deep_view().dom()),
            other_issuer(keys, policy_id, issuer@) == other_issuer(
                keys.skip(i as int),
                policy_id,
                issuer@,
            ),
        decreases entries.len() - i,
    {
        assert(keys.skip(i as int)[0] == entries@[i as int].0.deep_view());
        if entries[i].0.1 == policy_id && !(entries[i].0.0 == *issuer) {
            return Some(entries[i].0.0.clone());
        }
        assert(keys.skip(i as int).drop_first() =~= keys.skip(i as int + 1));
        i = i + 1;
    }
    None
}

fn retain_others(members: &Vec<CachedBundleRef>, policy_id: PolicyId) -> (r: (
    Vec<CachedBundleRef>,
    bool,
))
    ensures
        r.0.deep_view() == without_policy(members.deep_view(), policy_id),
        r.1 == has_policy(members.deep_view(), policy_id),
{
    let ghost all = members.deep_view();
    let mut out: Vec<CachedBundleRef> = Vec::new();
    let mut found = false;
    let mut i: usize = 0;
    assert(out.deep_view() =~= Seq::<CachedBundleRefModel>::empty());
    while i < members.len()
        invariant
            i <= members.len(),
            all == members.deep_view(),
            out.deep_view() == without_policy(all.take(i as int), policy_id),
            found ==> has_policy(all, policy_id),
            !found ==> forall|j: int|
                0 <= j < i ==> (#[trigger] all[j]).policy_id != policy_id,
        decreases members.len() - i,
    {
        proof {
            assert(all.take(i as int + 1).drop_last() =~= all.take(i as int));
            assert(all.take(i as int + 1).last() == members@[i as int].deep_view());
            assert(all[i as int] == members@[i as int].deep_view());
        }
        if members[i].policy_id == policy_id {
            found = true;
        } else {
            let m = members[i].deep_clone();
            let ghost before = out;
            out.push(m);
            proof {
                lemma_deep_push(before, out, m);
            }
        }
        i = i + 1;
    }
    assert(all.take(all.len() as int) =~= all);
    (out, found)
}

fn unparsed(field: &str, value: &String) -> (r: ActivationRejection)
    ensures
        r.deep_view() == (ActivationRejectionModel::Persistence {
            detail: unparsed_detail(field@, value@),
        }),
{
    ActivationRejection::Persistence {
        detail: "candidate ".to_owned().concat(field).concat(" ").concat(
            quote_debug(value.as_str()).as_str(),
        ).concat(" failed to parse after verify_bundle already validated it"),
    }
}

proof fn lemma_no_rule(rules: Seq<EnforcementRuleModel>, class: Tag)
    requires
        forall|i: int| 0 <= i < rules.len() ==> (#[trigger] rules[i]).action_class != class,
    ensures
        first_rule(rules, class) is None,
    decreases rules.len(),
{
    if rules.len() > 0 {
        let rest = rules.drop_first();
        assert forall|i: int| 0 <= i < rest.len() implies (
        #[trigger] rest[i]).action_class != class by {
            assert(rest[i] == rules[i + 1]);
        }
        lemma_no_rule(rest, class);
    }
}

/// An action class without a rule is observed and nothing more, whatever the
/// verdict and however stale the policy: nothing gains the power to block
/// unless a rule gives it.
pub proof fn law_unruled_actions_are_only_observed(
    rules: Seq<EnforcementRuleModel>,
    tiers: RiskClassTiers,
    class: Tag,
    verdict: Verdict,
)
    requires
        forall|i: int| 0 <= i < rules.len() ==> (#[trigger] rules[i]).action_class != class,
    ensures
        enforced_outcome(rules, tiers, class, verdict) == EnforcementOutcome::ObserveOnly,
{
    lemma_no_rule(rules, class);
}

/// A device is degraded exactly when something was configured and nothing of
/// it is usable; a revocation outweighs every other cause.
pub proof fn law_degraded_means_configured_and_unusable(
    ever_configured: bool,
    usable_is_empty: bool,
    diagnostics: Seq<PolicyDiagnosticModel>,
)
    ensures
        (posture(ever_configured, usable_is_empty, diagnostics) is Degraded) == (ever_configured
            && usable_is_empty),
        ever_configured && usable_is_empty && reported(
            diagnostics,
            DiagnosticCode::PolicyCacheRevoked,
        ) ==> posture(ever_configured, usable_is_empty, diagnostics) == (PolicyPosture::Degraded {
            reason: PolicyDegradationReason::Revoked,
        }),
{
}

/// Decides whether a verified bundle may become part of the active
/// generation. Nothing is written here; the decision is carried out
/// elsewhere.
pub fn evaluate_activation(
    candidate: &VerifiedPolicyBundle,
    state: &PolicyCacheState,
    now: Timestamp,
) -> (r: Result<ActivationDecision, ActivationRejection>)
    ensures
        match r {
            Ok(d) => activation(candidate.deep_view(), state.deep_view(), now) == Ok::<
                ActivationDecisionModel,
                ActivationRejectionModel,
            >(d.deep_view()),
            Err(e) => activation(candidate.deep_view(), state.deep_view(), now) == Err::<
                ActivationDecisionModel,
                ActivationRejectionModel,
            >(e.deep_view()),
        },
{
    let issuer = candidate.payload().provenance.issuer.clone();
    let policy_id = candidate.revision().body().policy_id;
    if let Some(hit) = state.revocations.hit(
        candidate.revision().digest(),
        candidate.payload_digest(),
    ) {
        return Err(
            ActivationRejection::Revoked {
                policy_id,
                target: hit.target,
                reason: hit.reason,
                revoked_at: hit.revoked_at,
            },
        );
    }
    if let Some(bound_issuer) = find_other_issuer(&state.high_water, policy_id, &issuer) {
        return Err(
            ActivationRejection::IssuerMismatchForLineage {
                policy_id,
                bound_issuer,
                candidate_issuer: issuer,
            },
        );
    }
    let sequence = candidate.payload().sequence;
    let bundle_id = candidate.payload().bundle_id;
    let key = (issuer.clone(), policy_id);
    if let Some(mark) = state.high_water.get(&key) {
        if sequence < mark.max_sequence {
            return Err(
                ActivationRejection::SequenceNotAdvanced {
                    issuer,
                    policy_id,
                    candidate: sequence,
                    high_water: mark.max_sequence,
                },
            );
        }
        if sequence == mark.max_sequence {
            if mark.last_bundle_id == bundle_id && mark.last_payload_digest.deep_eq(
                candidate.payload_digest(),
            ) {
                return Ok(
                    ActivationDecision::Confirm {
                        policy_id,
                        bundle_id,
                        payload_digest: candidate.payload_digest().deep_clone(),
                    },
                );
            }
            return Err(
                ActivationRejection::SequenceReused {
                    policy_id,
                    sequence,
                    recorded_bundle_id: mark.last_bundle_id,
                },
            );
        }
    }
    match candidate.deep_clone().into_bound_revisions() {
        Ok(_) => {},
        Err(report) => {
            return Err(ActivationRejection::BindingsUnusable(report));
        },
    }
    let not_before = match parse_relaxed(candidate.payload().not_before.as_str()) {
        Some(t) => t,
        None => {
            return Err(unparsed("not_before", &candidate.payload().not_before));
        },
    };
    let expires_at = match parse_relaxed(candidate.payload().expires_at.as_str()) {
        Some(t) => t,
        None => {
            return Err(unparsed("expires_at", &candidate.payload().expires_at));
        },
    };
    let new_member = CachedBundleRef {
        bundle_id,
        issuer,
        sequence,
        policy_id,
        revision: candidate.revision().body().revision,
        revision_digest: candidate.revision().digest().deep_clone(),
        payload_digest: candidate.payload_digest().deep_clone(),
        verified_by: candidate.verified_by().deep_clone(),
        not_before,
        expires_at,
        first_activated_at: now,
        confirmed_at: now,
    };
    assert(new_member.deep_view() =~= candidate_member(
        candidate.deep_view(),
        not_before,
        expires_at,
        now,
    ));
    let (mut members, found) = match &state.active {
        Some(g) => retain_others(&g.members, policy_id),
        None => {
            let none: Vec<CachedBundleRef> = Vec::new();
            assert(none.deep_view() =~= Seq::<CachedBundleRefModel>::empty());
            retain_others(&none, policy_id)
        },
    };
    let ghost before = members;
    members.push(new_member);
    proof {
        lemma_deep_push(before, members, new_member);
    }
    let members = stable_sort(members);
    Ok(
        ActivationDecision::Activate {
            members,
            replaced: if found {
                Some(policy_id)
            } else {
                None
            },
        },
    )
}

/// A candidate whose revision or payload digest is revoked is never
/// activated or confirmed, whatever else holds of it.
pub proof fn law_revoked_candidates_are_rejected(
    candidate: VerifiedPolicyBundleModel,
    state: PolicyCacheStateModel,
    now: Timestamp,
)
    requires
        state.revocations.revision_digests.dom().contains(candidate.payload.revision.digest)
            || state.revocations.payload_digests.dom().contains(candidate.payload_digest),
    ensures
        activation(candidate, state, now) matches Err(e) && e is Revoked,
{
}

proof fn lemma_other_issuer(
    keys: Seq<(Seq<char>, PolicyId)>,
    policy_id: PolicyId,
    issuer: Seq<char>,
)
    ensures
        other_issuer(keys, policy_id, issuer) matches Some(other) ==> other != issuer
            && keys.contains((other, policy_id)),
        other_issuer(keys, policy_id, issuer) is None ==> forall|other: Seq<char>| #[trigger]
            keys.contains((other, policy_id)) ==> other == issuer,
    decreases keys.len(),
{
    if keys.len() > 0 {
        let rest = keys.drop_first();
        lemma_other_issuer(rest, policy_id, issuer);
        if keys[0].1 == policy_id && keys[0].0 != issuer {
            assert(keys[0] == (keys[0].0, policy_id));
        } else {
            match other_issuer(rest, policy_id, issuer) {
                Some(other) => {
                    let i = choose|i: int| 0 <= i < rest.len() && rest[i] == (other, policy_id);
                    assert(keys[i + 1] == (other, policy_id));
                },
                None => {
                    assert forall|other: Seq<char>| #[trigger]
                        keys.contains((other, policy_id)) implies other == issuer by {
                        let i = choose|i: int|
                            0 <= i < keys.len() && keys[i] == (other, policy_id);
                        if i > 0 {
                            assert(rest[i - 1] == (other, policy_id));
                            assert(rest.contains((other, policy_id)));
                        }
                    }
                },
            }
        }
    }
}

/// A policy keeps its issuer: a candidate that is not revoked is rejected for
/// its issuer exactly if the policy has a high-water mark from another one,
/// and that one is named.
pub proof fn law_policies_keep_their_issuer(
    candidate: VerifiedPolicyBundleModel,
    state: PolicyCacheState,
    now: Timestamp,
)
    requires
        revocation_of(
            state.deep_view().revocations,
            candidate.payload.revision.digest,
            candidate.payload_digest,
        ) is None,
    ensures
        (activation(candidate, state.deep_view(), now) matches Err(e)
            && e is IssuerMismatchForLineage) <==> exists|other: Seq<char>|
            other != candidate.payload.provenance.issuer
                && #[trigger] state.deep_view().high_water.dom().contains(
                (other, candidate.payload.revision.body.policy_id),
            ),
        activation(candidate, state.deep_view(), now) matches Err(
            ActivationRejectionModel::IssuerMismatchForLineage {
                policy_id,
                bound_issuer,
                candidate_issuer,
            },
        ) ==> policy_id == candidate.payload.revision.body.policy_id && candidate_issuer
            == candidate.payload.provenance.issuer && bound_issuer != candidate_issuer
            && state.deep_view().high_water.dom().contains((bound_issuer, policy_id)),
{
    let marks = state.deep_view().high_water;
    let keys = listing::<(String, PolicyId)>(marks.dom());
    let policy_id = candidate.payload.revision.body.policy_id;
    let issuer = candidate.payload.provenance.issuer;
    lemma_sorted_map_keys(state.high_water);
    lemma_other_issuer(keys, policy_id, issuer);
    assert forall|other: Seq<char>| #[trigger]
        marks.dom().contains((other, policy_id)) == keys.contains((other, policy_id)) by {
        assert(keys.to_set().contains((other, policy_id)) == keys.contains((other, policy_id)));
    }
    if let Some(other) = other_issuer(keys, policy_id, issuer) {
        assert(marks.dom().contains((other, policy_id)));
    }
}

/// A candidate is activated only past the highest sequence seen of its policy
/// from its issuer, so a policy never goes back.
pub proof fn law_activation_never_goes_back(
    candidate: VerifiedPolicyBundleModel,
    state: PolicyCacheStateModel,
    now: Timestamp,
)
    requires
        state.high_water.dom().contains(
            (candidate.payload.provenance.issuer, candidate.payload.revision.body.policy_id),
        ),
        candidate.payload.sequence <= state.high_water[(
            candidate.payload.provenance.issuer,
            candidate.payload.revision.body.policy_id,
        )].max_sequence,
    ensures
        activation(candidate, state, now) matches Ok(d) ==> d is Confirm,
{
}

proof fn lemma_without_policy(members: Seq<CachedBundleRefModel>, policy_id: PolicyId)
    ensures
        forall|m: CachedBundleRefModel| #[trigger]
            without_policy(members, policy_id).contains(m) == (members.contains(m) && m.policy_id
                != policy_id),
    decreases members.len(),
{
    let rest = without_policy(members, policy_id);
    if members.len() > 0 {
        let front = members.drop_last();
        let last = members.last();
        let fr = without_policy(front, policy_id);
        lemma_without_policy(front, policy_id);
        assert forall|m: CachedBundleRefModel| #[trigger] rest.contains(m) == (members.contains(m)
            && m.policy_id != policy_id) by {
            assert(fr.contains(m) == (front.contains(m) && m.policy_id != policy_id));
            assert(members =~= front.push(last));
            if front.contains(m) {
                let k = choose|k: int| 0 <= k < front.len() && front[k] == m;
                assert(members[k] == m);
            }
            if members.contains(m) && m != last {
                let k = choose|k: int| 0 <= k < members.len() && members[k] == m;
                assert(front[k] == m);
            }
            assert(members[members.len() - 1] == last);
            if last.policy_id != policy_id {
                assert(rest == fr.push(last));
                assert(rest[fr.len() as int] == last);
                if fr.contains(m) {
                    let k = choose|k: int| 0 <= k < fr.len() && fr[k] == m;
                    assert(rest[k] == m);
                }
                if rest.contains(m) && m != last {
                    let k = choose|k: int| 0 <= k < rest.len() && rest[k] == m;
                    assert(fr[k] == m);
                }
            }
        }
    }
}

/// An activation puts the candidate in the place of its policy, keeps every
/// other member as it was, and sorts the members by policy.
pub proof fn law_activation_replaces_only_its_policy(
    candidate: VerifiedPolicyBundleModel,
    state: PolicyCacheStateModel,
    now: Timestamp,
)
    ensures
        activation(candidate, state, now) matches Ok(
            ActivationDecisionModel::Activate { members, replaced },
        ) ==> {
            let policy_id = candidate.payload.revision.body.policy_id;
            &&& nondecreasing::<CachedBundleRef>(members)
            &&& forall|m: CachedBundleRefModel| m.policy_id != policy_id ==> (
            #[trigger] members.contains(m) == active_members(state).contains(m))
            &&& forall|m: CachedBundleRefModel| #[trigger]
                members.contains(m) && m.policy_id == policy_id ==> m.payload_digest
                    == candidate.payload_digest && m.sequence == candidate.payload.sequence
            &&& has_policy(members, policy_id)
            &&& (replaced is Some) == has_policy(active_members(state), policy_id)
        },
{
    broadcast use vstd::seq_lib::group_to_multiset_ensures;

    let decision = activation(candidate, state, now);
    if let Ok(ActivationDecisionModel::Activate { members, replaced }) = decision {
        let policy_id = candidate.payload.revision.body.policy_id;
        let not_before = relaxed_rfc3339(candidate.payload.not_before).unwrap();
        let expires_at = relaxed_rfc3339(candidate.payload.expires_at).unwrap();
        let new = candidate_member(candidate, not_before, expires_at, now);
        let kept = without_policy(active_members(state), policy_id);
        let unsorted = kept.push(new);
        law_stable_sort_is_sorted_permutation::<CachedBundleRef>(unsorted);
        lemma_without_policy(active_members(state), policy_id);
        assert forall|m: CachedBundleRefModel| #[trigger] members.contains(m) == (kept.contains(m)
            || m == new) by {
            assert(members.contains(m) == (members.to_multiset().count(m) > 0));
            assert(unsorted.contains(m) == (unsorted.to_multiset().count(m) > 0));
            if kept.contains(m) {
                let k = choose|k: int| 0 <= k < kept.len() && kept[k] == m;
                assert(unsorted[k] == m);
            }
            assert(unsorted[kept.len() as int] == new);
            if unsorted.contains(m) && m != new {
                let k = choose|k: int| 0 <= k < unsorted.len() && unsorted[k] == m;
                assert(kept[k] == m);
            }
        }
        assert(members.contains(new));
        let k = choose|k: int| 0 <= k < members.len() && members[k] == new;
        assert(members[k].policy_id == policy_id);
    }
}

/// Recorded revocations are never taken away: what a list adds are entries
/// that were not recorded, and every entry of the list that it does not add
/// was.
pub proof fn law_ingest_adds_exactly_the_unrecorded_entries(
    set: RevocationSetModel,
    entries: Seq<RevocationEntryModel>,
    entry: RevocationEntryModel,
)
    ensures
        new_entries(set, entries).contains(entry) == (entries.contains(entry) && !already_revoked(
            set,
            entry,
        )),
    decreases entries.len(),
{
    if entries.len() > 0 {
        let front = entries.drop_last();
        let last = entries.last();
        law_ingest_adds_exactly_the_unrecorded_entries(set, front, entry);
        let fr = new_entries(set, front);
        let r = new_entries(set, entries);
        if front.contains(entry) {
            let k = choose|k: int| 0 <= k < front.len() && front[k] == entry;
            assert(entries[k] == entry);
        }
        if entries.contains(entry) && entry != last {
            let k = choose|k: int| 0 <= k < entries.len() && entries[k] == entry;
            assert(front[k] == entry);
        }
        assert(entries[entries.len() - 1] == last);
        if !already_revoked(set, last) {
            assert(r[fr.len() as int] == last);
            if fr.contains(entry) {
                let k = choose|k: int| 0 <= k < fr.len() && fr[k] == entry;
                assert(r[k] == entry);
            }
            if r.contains(entry) && entry != last {
                let k = choose|k: int| 0 <= k < r.len() && r[k] == entry;
                assert(fr[k] == entry);
            }
        }
    }
}

} // verus!

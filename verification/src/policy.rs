//! Policy as data: content, targeting, publication, resolution, distribution
//! and caching.
pub mod action_classification;
pub mod bundle;
pub mod bundle_laws;
pub mod cache;
pub mod cache_laws;
pub mod classification_laws;
pub mod content;
pub mod diagnostics;
pub mod field;
pub mod freshness_laws;
pub mod laws;
pub mod local;
pub mod measure_laws;
pub mod pins;
pub mod publication_laws;
pub mod resolution_laws;
pub mod resolve;
pub mod revision;
pub mod revocation;
pub mod strictness;
pub mod target;
pub mod targeting_laws;
pub mod trust_store;

pub use crate::policy::action_classification::classify_action_class;
pub use crate::policy::bundle::{
    authenticate_bundle, verify_bundle, AuthenticatedBundle, BundlePayload, BundleProvenance,
    BundleRejection, BundleSignature, KeyId, PayloadDigest, SignatureAlgorithm, SignedPolicyBundle,
    TrustStoreError, TrustedKey, TrustedVerificationKeys, VerifiedPolicyBundle,
    BUNDLE_SCHEMA_VERSION, BUNDLE_SIGNING_DOMAIN, CLOCK_SKEW_TOLERANCE_SECONDS, MAX_PAYLOAD_BYTES,
    MAX_SIGNATURES, SUPPORTED_BUNDLE_SCHEMA_VERSIONS,
};
pub use crate::policy::cache::{
    compute_posture, effective_outcome, evaluate_activation, evaluate_revocation_ingest, freshness,
    member_freshness, staleness_floor, ActivationDecision, ActivationOutcome, ActivationRejection,
    CacheGeneration, CacheSlotKind, CachedBundleRef, EffectivePolicy, FreshnessTier,
    MemberFreshness, PolicyCacheState, PolicyDegradationReason, PolicyFreshness, PolicyPosture,
    RevocationHit, RevocationHitMeta, RevocationIngestDecision, RevocationIngestRejection,
    RevocationSet, RiskClassTiers, SequenceHighWater, POLICY_CACHE_SCHEMA_VERSION,
};
pub use crate::policy::content::{
    ActionClass, CacheScope, CollectionScope, EgressContentClass, EgressScope, EnforcementOutcome,
    EnforcementRule, EnforcementScope, PolicyContent, RedactionProfile, ResolvedValues, RiskClass,
    RiskClassSeconds, SensorScope, VerdictOutcomes, POLICY_SCHEMA_VERSION,
    SUPPORTED_POLICY_SCHEMA_VERSIONS,
};
pub use crate::policy::diagnostics::{
    DiagnosticCode, DiagnosticSeverity, PolicyDiagnostic, PolicyValidationReport,
};
pub use crate::policy::field::PolicyFieldId;
pub use crate::policy::local::local_user_layer_from_values;
pub use crate::policy::resolve::{resolve, FieldProvenance, ResolvedPolicy};
pub use crate::policy::revision::{
    canonical_bytes, digest_of, PolicyDraft, PolicyId, PolicyRevisionBody, PolicyRevisionRef,
    PublishedPolicyRevision, RevisionDigest,
};
pub use crate::policy::revocation::{
    authenticate_revocation_list, verify_revocation_list, AuthenticatedRevocationList,
    RevocationEntry, RevocationPayload, RevocationRejection, RevocationTarget, SignedRevocationList,
    VerifiedRevocationList, MAX_REVOCATION_ENTRIES, REVOCATION_SCHEMA_VERSION,
    REVOCATION_SIGNING_DOMAIN, SUPPORTED_REVOCATION_SCHEMA_VERSIONS,
};
pub use crate::policy::target::{
    BoundRevision, DeviceContext, OsFamily, PolicyBinding, TargetLevel, TargetScope, TargetSelector,
};
pub use crate::policy::trust_store::resolve_trust_store;

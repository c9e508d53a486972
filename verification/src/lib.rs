//! The vocabulary of a local evidence engine: what an agent did and claimed,
//! what was observed of it, what evidence a claim needs, and the policy that
//! says what follows.
//!
//! Everything here is plain data and pure functions of it. No clock is read
//! and nothing is read from or written to a file, the environment or the
//! network.
use vstd::prelude::*;

pub mod adapter;
pub mod audit;
pub mod audit_checkpoint;
pub mod calibration;
pub mod capabilities;
pub mod causal;
pub mod code;
pub mod crypto;
pub mod epistemic_contract;
pub mod evidence;
pub mod experiment;
pub mod extension;
pub mod graph;
pub mod ident;
pub mod json;
pub mod model;
pub mod order;
pub mod policy;
pub mod privacy;
pub mod sensor;
pub mod sensor_config;
pub mod text;
pub mod time;

pub use crate::adapter::{AgentAdapter, NormalizationOutcome};
pub use crate::audit::{
    validate_audit_event, AuditAction, AuditActor, AuditEvent, AuditEventRejection,
    AuditExportClass, AuditOutcome, AuditRef, AuditRefParseError, AuditTarget, AUDIT_SCHEMA_VERSION,
    SUPPORTED_AUDIT_SCHEMA_VERSIONS,
};
pub use crate::audit_checkpoint::{
    authenticate_audit_checkpoint, divergence_kind_wire, verify_audit_checkpoint,
    AuditCheckpointPayload, AuditCheckpointRequest, AuthenticatedAuditCheckpoint,
    CheckpointRejection, DeviceReportedChainStatus, LedgerHead, PrevCheckpoint,
    SignedAuditCheckpoint, VerifiedAuditCheckpoint, AUDIT_CHECKPOINT_SCHEMA_VERSION,
    AUDIT_CHECKPOINT_SIGNING_DOMAIN, SUPPORTED_CHECKPOINT_SCHEMA_VERSIONS,
};
pub use crate::capabilities::{
    CapabilityProbe, CapabilitySignal, LegacyCapabilitiesWire, RuntimeCapabilities,
    SignalAvailability, SignalClass, CAPABILITY_SCHEMA_VERSION,
};
pub use crate::causal::{
    causal_evidence_from_experiment_result, CausalEvidenceLink, CausalExperimentEvidence,
    EvidenceProvenanceClass, InterventionalProvenance,
};
pub use crate::evidence::{
    AgentEvent, CiOverallStatus, Claim, EventKind, Evidence, EvidenceKind, ExitCodePayload,
    FileDiffPayload, Finding, IngestMessage, ProcessObservationDetail, ProcessObservationPayload,
    Provider, ToolResultPayload, TranscriptExcerptPayload, VcsOperation, VcsOutcome, Verdict,
};
pub use crate::experiment::{
    Baseline, CompletedExperiment, ExpectedObservation, ExperimentKind, ExperimentOutcome,
    ExperimentProvenance, ExperimentResult, ExperimentSpec, Hypothesis, Intervention,
    SideEffectAllowList, SideEffectClass, StopCondition, EXPERIMENT_SCHEMA_VERSION,
    SUPPORTED_EXPERIMENT_SCHEMA_VERSIONS,
};
pub use crate::extension::{
    ContentClass, ExtensionEnvelope, EXTENSION_SCHEMA_VERSION, SUPPORTED_EXTENSION_SCHEMA_VERSIONS,
};
pub use crate::graph::{
    staleness_of, staleness_of_default, EvidenceConflict, EvidenceGraph, EvidenceLink,
    EvidenceRelation, FreshnessWindow, MissingEvidence, StalenessAssessment,
    DEFAULT_EXIT_CODE_FRESHNESS_SECONDS,
};
pub use crate::ident::Uuid;
pub use crate::json::{Json, JsonNumber};
pub use crate::policy::{
    authenticate_bundle, authenticate_revocation_list, classify_action_class, compute_posture,
    effective_outcome, evaluate_activation, evaluate_revocation_ingest, freshness, member_freshness,
    resolve, resolve_trust_store, staleness_floor, verify_bundle, verify_revocation_list,
    ActionClass, ActivationDecision, ActivationOutcome, ActivationRejection, AuthenticatedBundle,
    AuthenticatedRevocationList, BoundRevision, BundleRejection, CacheGeneration, CacheScope,
    CacheSlotKind, CachedBundleRef, CollectionScope, DeviceContext, DiagnosticCode,
    DiagnosticSeverity, EffectivePolicy, EgressContentClass, EgressScope, EnforcementOutcome,
    EnforcementRule, EnforcementScope, FieldProvenance, FreshnessTier, KeyId, MemberFreshness,
    OsFamily, PayloadDigest, PolicyBinding, PolicyCacheState, PolicyContent,
    PolicyDegradationReason, PolicyDiagnostic, PolicyDraft, PolicyFieldId, PolicyFreshness,
    PolicyId, PolicyPosture, PolicyRevisionBody, PolicyRevisionRef, PolicyValidationReport,
    PublishedPolicyRevision, RedactionProfile, ResolvedPolicy, ResolvedValues, RevisionDigest,
    RevocationEntry, RevocationHit, RevocationHitMeta, RevocationIngestDecision,
    RevocationIngestRejection, RevocationPayload, RevocationRejection, RevocationSet,
    RevocationTarget, RiskClass, RiskClassSeconds, RiskClassTiers, SensorScope, SequenceHighWater,
    SignedRevocationList, TargetLevel, TargetScope, TargetSelector, TrustedVerificationKeys,
    VerdictOutcomes, VerifiedPolicyBundle, VerifiedRevocationList, MAX_REVOCATION_ENTRIES,
    POLICY_CACHE_SCHEMA_VERSION, POLICY_SCHEMA_VERSION, REVOCATION_SCHEMA_VERSION,
    REVOCATION_SIGNING_DOMAIN, SUPPORTED_POLICY_SCHEMA_VERSIONS,
    SUPPORTED_REVOCATION_SCHEMA_VERSIONS,
};
pub use crate::privacy::{cloud_sync_allowed, longitudinal_reliability_collection_allowed};
pub use crate::sensor::{EvidenceSource, TrustClass};
pub use crate::sensor_config::SensorDisableConfig;
pub use crate::time::Timestamp;

verus! {

} // verus!

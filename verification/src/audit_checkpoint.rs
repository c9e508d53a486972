//! Signed audit checkpoints: a witness's countersigned statement of what a
//! device said the head of its ledger was.
//!
//! Verification comes in two steps, as for bundles: the payload is parsed only
//! once it has been authenticated. There is no validity window.
use vstd::prelude::*;

use crate::model::{Deep, Tag};
use crate::policy::bundle::{
    envelope_verdict, verify_signed_envelope, BundleSignature, BundleSignatureModel,
    EnvelopeVerificationError, EnvelopeVerificationErrorModel, KeyId, SignatureAlgorithm,
    TrustedKeyModel, TrustedVerificationKeys, BUNDLE_SIGNING_DOMAIN, MAX_PAYLOAD_BYTES,
};
use crate::policy::revocation::REVOCATION_SIGNING_DOMAIN;
use crate::text::{blank, chars_of, is_blank, str_eq};
use crate::time::{parse_rfc3339, rfc3339, Timestamp};

pub mod checkpoint_laws;
pub mod divergence_kind_wire;

verus! {

pub const AUDIT_CHECKPOINT_SCHEMA_VERSION: u32 = 1;

/// The checkpoint versions this library reads.
pub const SUPPORTED_CHECKPOINT_SCHEMA_VERSIONS: [u32; 1] = [1];

/// What stands before the payload bytes of a signed checkpoint.
pub const AUDIT_CHECKPOINT_SIGNING_DOMAIN: [u8; 27] = [
    102, 111, 114, 110, 97, 120, 45, 97, 117, 100, 105, 116, 45, 99, 104, 101, 99, 107, 112, 111,
    105, 110, 116, 47, 118, 49, 10,
];

/// One position in a device's ledger.
#[derive(Debug, Clone, PartialEq, Eq)]
pub struct LedgerHead {
    pub ledger_seq: i64,
    pub entry_hash: String,
}

/// The mathematical value of a [`LedgerHead`].
#[verifier::ext_equal]
pub struct LedgerHeadModel {
    pub ledger_seq: i64,
    pub entry_hash: Seq<char>,
}

impl DeepView for LedgerHead {
    type V = LedgerHeadModel;

    open spec fn deep_view(&self) -> LedgerHeadModel {
        LedgerHeadModel {
            ledger_seq: self.ledger_seq.deep_view(),
            entry_hash: self.entry_hash.deep_view(),
        }
    }
}

impl Deep for LedgerHead {
    fn deep_clone(&self) -> (r: Self) {
        LedgerHead {
            ledger_seq: self.ledger_seq.deep_clone(),
            entry_hash: self.entry_hash.deep_clone(),
        }
    }

    fn deep_eq(&self, other: &Self) -> (r: bool) {
        self.ledger_seq.deep_eq(&other.ledger_seq)
            && self.entry_hash.deep_eq(&other.entry_hash)
    }
}

/// What a device says of its own chain. Nobody else can check it.
#[derive(Debug, Clone, PartialEq, Eq)]
pub struct DeviceReportedChainStatus {
    pub status: String,
    pub first_bad_ledger_seq: Option<i64>,
    pub divergence_kind: Option<String>,
}

/// The mathematical value of a [`DeviceReportedChainStatus`].
#[verifier::ext_equal]
pub struct DeviceReportedChainStatusModel {
    pub status: Seq<char>,
    pub first_bad_ledger_seq: Option<i64>,
    pub divergence_kind: Option<Seq<char>>,
}

impl DeepView for DeviceReportedChainStatus {
    type V = DeviceReportedChainStatusModel;

    open spec fn deep_view(&self) -> DeviceReportedChainStatusModel {
        DeviceReportedChainStatusModel {
            status: self.status.deep_view(),
            first_bad_ledger_seq: self.first_bad_ledger_seq.deep_view(),
            divergence_kind: self.divergence_kind.deep_view(),
        }
    }
}

impl Deep for DeviceReportedChainStatus {
    fn deep_clone(&self) -> (r: Self) {
        DeviceReportedChainStatus {
            status: self.status.deep_clone(),
            first_bad_ledger_seq: self.first_bad_ledger_seq.deep_clone(),
            divergence_kind: self.divergence_kind.deep_clone(),
        }
    }

    fn deep_eq(&self, other: &Self) -> (r: bool) {
        self.status.deep_eq(&other.status)
            && self.first_bad_ledger_seq.deep_eq(&other.first_bad_ledger_seq)
            && self.divergence_kind.deep_eq(&other.divergence_kind)
    }
}

/// What a device asks a witness to sign.
#[derive(Debug, Clone, PartialEq, Eq)]
pub struct AuditCheckpointRequest {
    pub checkpoint_schema_version: u32,
    pub checkpoint_seq: u64,
    pub observed_at: String,
    pub head: LedgerHead,
    pub device_reported_chain_status: DeviceReportedChainStatus,
}

/// The mathematical value of a [`AuditCheckpointRequest`].
#[verifier::ext_equal]
pub struct AuditCheckpointRequestModel {
    pub checkpoint_schema_version: u32,
    pub checkpoint_seq: u64,
    pub observed_at: Seq<char>,
    pub head: LedgerHeadModel,
    pub device_reported_chain_status: DeviceReportedChainStatusModel,
}

impl DeepView for AuditCheckpointRequest {
    type V = AuditCheckpointRequestModel;

    open spec fn deep_view(&self) -> AuditCheckpointRequestModel {
        AuditCheckpointRequestModel {
            checkpoint_schema_version: self.checkpoint_schema_version.deep_view(),
            checkpoint_seq: self.checkpoint_seq.deep_view(),
            observed_at: self.observed_at.deep_view(),
            head: self.head.deep_view(),
            device_reported_chain_status: self.device_reported_chain_status.deep_view(),
        }
    }
}

impl Deep for AuditCheckpointRequest {
    fn deep_clone(&self) -> (r: Self) {
        AuditCheckpointRequest {
            checkpoint_schema_version: self.checkpoint_schema_version.deep_clone(),
            checkpoint_seq: self.checkpoint_seq.deep_clone(),
            observed_at: self.observed_at.deep_clone(),
            head: self.head.deep_clone(),
            device_reported_chain_status: self.device_reported_chain_status.deep_clone(),
        }
    }

    fn deep_eq(&self, other: &Self) -> (r: bool) {
        self.checkpoint_schema_version.deep_eq(&other.checkpoint_schema_version)
            && self.checkpoint_seq.deep_eq(&other.checkpoint_seq)
            && self.observed_at.deep_eq(&other.observed_at)
            && self.head.deep_eq(&other.head)
            && self.device_reported_chain_status.deep_eq(&other.device_reported_chain_status)
    }
}

/// The checkpoint before a checkpoint.
#[derive(Debug, Clone, PartialEq, Eq)]
pub struct PrevCheckpoint {
    pub checkpoint_seq: u64,
    pub head: LedgerHead,
}

/// The mathematical value of a [`PrevCheckpoint`].
#[verifier::ext_equal]
pub struct PrevCheckpointModel {
    pub checkpoint_seq: u64,
    pub head: LedgerHeadModel,
}

impl DeepView for PrevCheckpoint {
    type V = PrevCheckpointModel;

    open spec fn deep_view(&self) -> PrevCheckpointModel {
        PrevCheckpointModel {
            checkpoint_seq: self.checkpoint_seq.deep_view(),
            head: self.head.deep_view(),
        }
    }
}

impl Deep for PrevCheckpoint {
    fn deep_clone(&self) -> (r: Self) {
        PrevCheckpoint {
            checkpoint_seq: self.checkpoint_seq.deep_clone(),
            head: self.head.deep_clone(),
        }
    }

    fn deep_eq(&self, other: &Self) -> (r: bool) {
        self.checkpoint_seq.deep_eq(&other.checkpoint_seq)
            && self.head.deep_eq(&other.head)
    }
}

/// The envelope of a checkpoint. It asserts nothing about its own validity.
#[derive(Debug, Clone, PartialEq, Eq)]
pub struct SignedAuditCheckpoint {
    pub checkpoint_schema_version: u32,
    pub payload_b64: String,
    pub signatures: Vec<BundleSignature>,
}

/// The mathematical value of a [`SignedAuditCheckpoint`].
#[verifier::ext_equal]
pub struct SignedAuditCheckpointModel {
    pub checkpoint_schema_version: u32,
    pub payload_b64: Seq<char>,
    pub signatures: Seq<BundleSignatureModel>,
}

impl DeepView for SignedAuditCheckpoint {
    type V = SignedAuditCheckpointModel;

    open spec fn deep_view(&self) -> SignedAuditCheckpointModel {
        SignedAuditCheckpointModel {
            checkpoint_schema_version: self.checkpoint_schema_version.deep_view(),
            payload_b64: self.payload_b64.deep_view(),
            signatures: self.signatures.deep_view(),
        }
    }
}

impl Deep for SignedAuditCheckpoint {
    fn deep_clone(&self) -> (r: Self) {
        SignedAuditCheckpoint {
            checkpoint_schema_version: self.checkpoint_schema_version.deep_clone(),
            payload_b64: self.payload_b64.deep_clone(),
            signatures: self.signatures.deep_clone(),
        }
    }

    fn deep_eq(&self, other: &Self) -> (r: bool) {
        self.checkpoint_schema_version.deep_eq(&other.checkpoint_schema_version)
            && self.payload_b64.deep_eq(&other.payload_b64)
            && self.signatures.deep_eq(&other.signatures)
    }
}

/// The content of a checkpoint.
#[derive(Debug, Clone, PartialEq, Eq)]
pub struct AuditCheckpointPayload {
    pub checkpoint_schema_version: u32,
    pub issuer: String,
    pub device_id: String,
    pub checkpoint_seq: u64,
    pub issued_at: String,
    pub observed_at: String,
    pub head: LedgerHead,
    pub device_reported_chain_status: DeviceReportedChainStatus,
    pub prev_checkpoint: Option<PrevCheckpoint>,
}

/// The mathematical value of a [`AuditCheckpointPayload`].
#[verifier::ext_equal]
pub struct AuditCheckpointPayloadModel {
    pub checkpoint_schema_version: u32,
    pub issuer: Seq<char>,
    pub device_id: Seq<char>,
    pub checkpoint_seq: u64,
    pub issued_at: Seq<char>,
    pub observed_at: Seq<char>,
    pub head: LedgerHeadModel,
    pub device_reported_chain_status: DeviceReportedChainStatusModel,
    pub prev_checkpoint: Option<PrevCheckpointModel>,
}

impl DeepView for AuditCheckpointPayload {
    type V = AuditCheckpointPayloadModel;

    open spec fn deep_view(&self) -> AuditCheckpointPayloadModel {
        AuditCheckpointPayloadModel {
            checkpoint_schema_version: self.checkpoint_schema_version.deep_view(),
            issuer: self.issuer.deep_view(),
            device_id: self.device_id.deep_view(),
            checkpoint_seq: self.checkpoint_seq.deep_view(),
            issued_at: self.issued_at.deep_view(),
            observed_at: self.observed_at.deep_view(),
            head: self.head.deep_view(),
            device_reported_chain_status: self.device_reported_chain_status.deep_view(),
            prev_checkpoint: self.prev_checkpoint.deep_view(),
        }
    }
}

impl Deep for AuditCheckpointPayload {
    fn deep_clone(&self) -> (r: Self) {
        AuditCheckpointPayload {
            checkpoint_schema_version: self.checkpoint_schema_version.deep_clone(),
            issuer: self.issuer.deep_clone(),
            device_id: self.device_id.deep_clone(),
            checkpoint_seq: self.checkpoint_seq.deep_clone(),
            issued_at: self.issued_at.deep_clone(),
            observed_at: self.observed_at.deep_clone(),
            head: self.head.deep_clone(),
            device_reported_chain_status: self.device_reported_chain_status.deep_clone(),
            prev_checkpoint: self.prev_checkpoint.deep_clone(),
        }
    }

    fn deep_eq(&self, other: &Self) -> (r: bool) {
        self.checkpoint_schema_version.deep_eq(&other.checkpoint_schema_version)
            && self.issuer.deep_eq(&other.issuer)
            && self.device_id.deep_eq(&other.device_id)
            && self.checkpoint_seq.deep_eq(&other.checkpoint_seq)
            && self.issued_at.deep_eq(&other.issued_at)
            && self.observed_at.deep_eq(&other.observed_at)
            && self.head.deep_eq(&other.head)
            && self.device_reported_chain_status.deep_eq(&other.device_reported_chain_status)
            && self.prev_checkpoint.deep_eq(&other.prev_checkpoint)
    }
}

/// Why a checkpoint is rejected: one variant per check.
#[derive(Debug, Clone, PartialEq, Eq)]
pub enum CheckpointRejection {
    MalformedEnvelope { detail: String },
    UnsupportedCheckpointSchemaVersion { found: u32, supported: Vec<u32> },
    SchemaVersionMismatch { envelope: u32, payload: u32 },
    MalformedPayloadEncoding { detail: String },
    PayloadTooLarge { found: usize, max: usize },
    NoSignatures,
    TooManySignatures { found: usize, max: usize },
    UnknownKeyId { offered: Vec<KeyId> },
    UnsupportedAlgorithm { key_id: KeyId, algorithm: SignatureAlgorithm },
    MalformedSignature { key_id: KeyId },
    KeyNotYetValid { key_id: KeyId, not_before: String, now: Timestamp },
    KeyRetired { key_id: KeyId, not_after: String, now: Timestamp },
    SignatureInvalid { key_ids: Vec<KeyId> },
    MalformedTimestamp { field: &'static str, value: String },
    MalformedPayload { detail: String },
    /// A key is absent; one whose value is null must still be there.
    MissingRequiredKey { key: &'static str },
    EmptyIssuer,
    EmptyDeviceId,
    MalformedEntryHash { value: String },
    LedgerSeqBelowOne { found: i64 },
    CheckpointSeqBelowOne { found: u64 },
    PrevCheckpointPresenceInconsistent { checkpoint_seq: u64 },
    UnrecognizedChainStatus { found: String },
    ChainStatusInconsistent,
}

/// The mathematical value of a [`CheckpointRejection`].
#[verifier::ext_equal]
pub enum CheckpointRejectionModel {
    MalformedEnvelope { detail: Seq<char> },
    UnsupportedCheckpointSchemaVersion { found: u32, supported: Seq<u32> },
    SchemaVersionMismatch { envelope: u32, payload: u32 },
    MalformedPayloadEncoding { detail: Seq<char> },
    PayloadTooLarge { found: usize, max: usize },
    NoSignatures,
    TooManySignatures { found: usize, max: usize },
    UnknownKeyId { offered: Seq<Seq<char>> },
    UnsupportedAlgorithm { key_id: Seq<char>, algorithm: Tag },
    MalformedSignature { key_id: Seq<char> },
    KeyNotYetValid { key_id: Seq<char>, not_before: Seq<char>, now: Timestamp },
    KeyRetired { key_id: Seq<char>, not_after: Seq<char>, now: Timestamp },
    SignatureInvalid { key_ids: Seq<Seq<char>> },
    MalformedTimestamp { field: Seq<char>, value: Seq<char> },
    MalformedPayload { detail: Seq<char> },
    MissingRequiredKey { key: Seq<char> },
    EmptyIssuer,
    EmptyDeviceId,
    MalformedEntryHash { value: Seq<char> },
    LedgerSeqBelowOne { found: i64 },
    CheckpointSeqBelowOne { found: u64 },
    PrevCheckpointPresenceInconsistent { checkpoint_seq: u64 },
    UnrecognizedChainStatus { found: Seq<char> },
    ChainStatusInconsistent,
}

impl DeepView for CheckpointRejection {
    type V = CheckpointRejectionModel;

    open spec fn deep_view(&self) -> CheckpointRejectionModel {
        match self {
            CheckpointRejection::MalformedEnvelope { detail } => CheckpointRejectionModel::MalformedEnvelope {
                detail: detail.deep_view(),
            },
            CheckpointRejection::UnsupportedCheckpointSchemaVersion { found, supported } => CheckpointRejectionModel::UnsupportedCheckpointSchemaVersion {
                found: found.deep_view(),
                supported: supported.deep_view(),
            },
            CheckpointRejection::SchemaVersionMismatch { envelope, payload } => CheckpointRejectionModel::SchemaVersionMismatch {
                envelope: envelope.deep_view(),
                payload: payload.deep_view(),
            },
            CheckpointRejection::MalformedPayloadEncoding { detail } => CheckpointRejectionModel::MalformedPayloadEncoding {
                detail: detail.deep_view(),
            },
            CheckpointRejection::PayloadTooLarge { found, max } => CheckpointRejectionModel::PayloadTooLarge {
                found: found.deep_view(),
                max: max.deep_view(),
            },
            CheckpointRejection::NoSignatures => CheckpointRejectionModel::NoSignatures,
            CheckpointRejection::TooManySignatures { found, max } => CheckpointRejectionModel::TooManySignatures {
                found: found.deep_view(),
                max: max.deep_view(),
            },
            CheckpointRejection::UnknownKeyId { offered } => CheckpointRejectionModel::UnknownKeyId {
                offered: offered.deep_view(),
            },
            CheckpointRejection::UnsupportedAlgorithm { key_id, algorithm } => CheckpointRejectionModel::UnsupportedAlgorithm {
                key_id: key_id.deep_view(),
                algorithm: algorithm.deep_view(),
            },
            CheckpointRejection::MalformedSignature { key_id } => CheckpointRejectionModel::MalformedSignature {
                key_id: key_id.deep_view(),
            },
            CheckpointRejection::KeyNotYetValid { key_id, not_before, now } => CheckpointRejectionModel::KeyNotYetValid {
                key_id: key_id.deep_view(),
                not_before: not_before.deep_view(),
                now: now.deep_view(),
            },
            CheckpointRejection::KeyRetired { key_id, not_after, now } => CheckpointRejectionModel::KeyRetired {
                key_id: key_id.deep_view(),
                not_after: not_after.deep_view(),
                now: now.deep_view(),
            },
            CheckpointRejection::SignatureInvalid { key_ids } => CheckpointRejectionModel::SignatureInvalid {
                key_ids: key_ids.deep_view(),
            },
            CheckpointRejection::MalformedTimestamp { field, value } => CheckpointRejectionModel::MalformedTimestamp {
                field: field.deep_view(),
                value: value.deep_view(),
            },
            CheckpointRejection::MalformedPayload { detail } => CheckpointRejectionModel::MalformedPayload {
                detail: detail.deep_view(),
            },
            CheckpointRejection::MissingRequiredKey { key } => CheckpointRejectionModel::MissingRequiredKey {
                key: key.deep_view(),
            },
            CheckpointRejection::EmptyIssuer => CheckpointRejectionModel::EmptyIssuer,
            CheckpointRejection::EmptyDeviceId => CheckpointRejectionModel::EmptyDeviceId,
            CheckpointRejection::MalformedEntryHash { value } => CheckpointRejectionModel::MalformedEntryHash {
                value: value.deep_view(),
            },
            CheckpointRejection::LedgerSeqBelowOne { found } => CheckpointRejectionModel::LedgerSeqBelowOne {
                found: found.deep_view(),
            },
            CheckpointRejection::CheckpointSeqBelowOne { found } => CheckpointRejectionModel::CheckpointSeqBelowOne {
                found: found.deep_view(),
            },
            CheckpointRejection::PrevCheckpointPresenceInconsistent { checkpoint_seq } => CheckpointRejectionModel::PrevCheckpointPresenceInconsistent {
                checkpoint_seq: checkpoint_seq.deep_view(),
            },
            CheckpointRejection::UnrecognizedChainStatus { found } => CheckpointRejectionModel::UnrecognizedChainStatus {
                found: found.deep_view(),
            },
            CheckpointRejection::ChainStatusInconsistent => CheckpointRejectionModel::ChainStatusInconsistent,
        }
    }
}

impl From<EnvelopeVerificationError> for CheckpointRejection {
    fn from(e: EnvelopeVerificationError) -> (r: Self) {
        match e {
            EnvelopeVerificationError::MalformedPayloadEncoding { detail } => CheckpointRejection::MalformedPayloadEncoding { detail },
            EnvelopeVerificationError::PayloadTooLarge { found, max } => CheckpointRejection::PayloadTooLarge { found, max },
            EnvelopeVerificationError::NoSignatures => CheckpointRejection::NoSignatures,
            EnvelopeVerificationError::TooManySignatures { found, max } => CheckpointRejection::TooManySignatures { found, max },
            EnvelopeVerificationError::UnknownKeyId { offered } => CheckpointRejection::UnknownKeyId { offered },
            EnvelopeVerificationError::UnsupportedAlgorithm { key_id, algorithm } => CheckpointRejection::UnsupportedAlgorithm { key_id, algorithm },
            EnvelopeVerificationError::MalformedSignature { key_id } => CheckpointRejection::MalformedSignature { key_id },
            EnvelopeVerificationError::KeyNotYetValid { key_id, not_before, now } => CheckpointRejection::KeyNotYetValid { key_id, not_before, now },
            EnvelopeVerificationError::KeyRetired { key_id, not_after, now } => CheckpointRejection::KeyRetired { key_id, not_after, now },
            EnvelopeVerificationError::SignatureInvalid { key_ids } => CheckpointRejection::SignatureInvalid { key_ids },
            EnvelopeVerificationError::MalformedKeyTimestamp { field, value } => CheckpointRejection::MalformedTimestamp { field, value },
        }
    }
}

impl vstd::std_specs::convert::FromSpecImpl<EnvelopeVerificationError> for CheckpointRejection {
    open spec fn obeys_from_spec() -> bool {
        true
    }

    open spec fn from_spec(e: EnvelopeVerificationError) -> Self {
        match e {
            EnvelopeVerificationError::MalformedPayloadEncoding { detail } => CheckpointRejection::MalformedPayloadEncoding { detail },
            EnvelopeVerificationError::PayloadTooLarge { found, max } => CheckpointRejection::PayloadTooLarge { found, max },
            EnvelopeVerificationError::NoSignatures => CheckpointRejection::NoSignatures,
            EnvelopeVerificationError::TooManySignatures { found, max } => CheckpointRejection::TooManySignatures { found, max },
            EnvelopeVerificationError::UnknownKeyId { offered } => CheckpointRejection::UnknownKeyId { offered },
            EnvelopeVerificationError::UnsupportedAlgorithm { key_id, algorithm } => CheckpointRejection::UnsupportedAlgorithm { key_id, algorithm },
            EnvelopeVerificationError::MalformedSignature { key_id } => CheckpointRejection::MalformedSignature { key_id },
            EnvelopeVerificationError::KeyNotYetValid { key_id, not_before, now } => CheckpointRejection::KeyNotYetValid { key_id, not_before, now },
            EnvelopeVerificationError::KeyRetired { key_id, not_after, now } => CheckpointRejection::KeyRetired { key_id, not_after, now },
            EnvelopeVerificationError::SignatureInvalid { key_ids } => CheckpointRejection::SignatureInvalid { key_ids },
            EnvelopeVerificationError::MalformedKeyTimestamp { field, value } => CheckpointRejection::MalformedTimestamp { field, value },
        }
    }
}

/// The rejection an envelope error amounts to: the same check, under the same
/// name.
pub open spec fn checkpoint_rejection(e: EnvelopeVerificationErrorModel) -> CheckpointRejectionModel {
    match e {
        EnvelopeVerificationErrorModel::MalformedPayloadEncoding { detail } => CheckpointRejectionModel::MalformedPayloadEncoding { detail },
        EnvelopeVerificationErrorModel::PayloadTooLarge { found, max } => CheckpointRejectionModel::PayloadTooLarge { found, max },
        EnvelopeVerificationErrorModel::NoSignatures => CheckpointRejectionModel::NoSignatures,
        EnvelopeVerificationErrorModel::TooManySignatures { found, max } => CheckpointRejectionModel::TooManySignatures { found, max },
        EnvelopeVerificationErrorModel::UnknownKeyId { offered } => CheckpointRejectionModel::UnknownKeyId { offered },
        EnvelopeVerificationErrorModel::UnsupportedAlgorithm { key_id, algorithm } => CheckpointRejectionModel::UnsupportedAlgorithm { key_id, algorithm },
        EnvelopeVerificationErrorModel::MalformedSignature { key_id } => CheckpointRejectionModel::MalformedSignature { key_id },
        EnvelopeVerificationErrorModel::KeyNotYetValid { key_id, not_before, now } => CheckpointRejectionModel::KeyNotYetValid { key_id, not_before, now },
        EnvelopeVerificationErrorModel::KeyRetired { key_id, not_after, now } => CheckpointRejectionModel::KeyRetired { key_id, not_after, now },
        EnvelopeVerificationErrorModel::SignatureInvalid { key_ids } => CheckpointRejectionModel::SignatureInvalid { key_ids },
        EnvelopeVerificationErrorModel::MalformedKeyTimestamp { field, value } => CheckpointRejectionModel::MalformedTimestamp { field, value },
    }
}

/// A checkpoint whose envelope has been authenticated and whose payload has
/// every key it must have; the payload may now be parsed.
#[derive(Debug, Clone, PartialEq, Eq)]
pub struct AuthenticatedAuditCheckpoint {
    checkpoint_schema_version: u32,
    payload_bytes: Vec<u8>,
    verified_by: KeyId,
}

/// The mathematical value of an [`AuthenticatedAuditCheckpoint`].
#[verifier::ext_equal]
pub struct AuthenticatedAuditCheckpointModel {
    pub checkpoint_schema_version: u32,
    pub payload_bytes: Seq<u8>,
    pub verified_by: Seq<char>,
}

impl DeepView for AuthenticatedAuditCheckpoint {
    type V = AuthenticatedAuditCheckpointModel;

    closed spec fn deep_view(&self) -> AuthenticatedAuditCheckpointModel {
        AuthenticatedAuditCheckpointModel {
            checkpoint_schema_version: self.checkpoint_schema_version,
            payload_bytes: self.payload_bytes@,
            verified_by: self.verified_by.deep_view(),
        }
    }
}

impl AuthenticatedAuditCheckpoint {
    /// The bytes the signature covers, without the domain.
    pub fn payload_bytes(&self) -> (r: &Vec<u8>)
        ensures
            r@ == self.deep_view().payload_bytes,
    {
        &self.payload_bytes
    }
}

/// Whether a checkpoint version is one this library reads.
pub open spec fn checkpoint_schema_supported(version: u32) -> bool {
    SUPPORTED_CHECKPOINT_SCHEMA_VERSIONS@.contains(version)
}

/// The names of the members of a JSON object, each with the names of its own
/// members where it is an object itself.
pub type Outline = Vec<(String, Option<Vec<String>>)>;

/// The mathematical value of an [`Outline`].
pub type OutlineModel = Seq<(Seq<char>, Option<Seq<Seq<char>>>)>;

/// The outline of the document that bytes hold: none where it is no object,
/// and an error text where they hold no document.
pub uninterp spec fn json_outline(bytes: Seq<u8>) -> Result<
    Option<Seq<(Seq<char>, Option<Seq<Seq<char>>>)>>,
    Seq<char>,
>;

/// Reads the outline of a JSON document.
///
/// Relies on `serde_json::from_slice` into `serde_json::Value`, and on
/// `as_object` and the keys of the maps it gives. The result is named
/// [`json_outline`]: it depends on the bytes alone.
#[verifier::external_body]
fn read_outline(bytes: &[u8]) -> (r: Result<Option<Outline>, String>)
    ensures
        match r {
            Ok(outline) => json_outline(bytes@) == Ok::<Option<OutlineModel>, Seq<char>>(
                outline.deep_view(),
            ),
            Err(detail) => json_outline(bytes@) == Err::<Option<OutlineModel>, Seq<char>>(detail@),
        },
{
    match serde_json::from_slice::<serde_json::Value>(bytes) {
        Ok(v) => Ok(
            v.as_object().map(
                |m| m.iter().map(
                    |(k, v)| (k.clone(), v.as_object().map(|o| o.keys().cloned().collect())),
                ).collect(),
            ),
        ),
        Err(e) => Err(e.to_string()),
    }
}

/// The keys a payload must have.
pub const PAYLOAD_KEYS: [&'static str; 9] = [
    "checkpoint_schema_version",
    "issuer",
    "device_id",
    "checkpoint_seq",
    "issued_at",
    "observed_at",
    "head",
    "device_reported_chain_status",
    "prev_checkpoint",
];

/// The keys a reported chain status must have.
pub const CHAIN_STATUS_KEYS: [&'static str; 3] = [
    "status",
    "first_bad_ledger_seq",
    "divergence_kind",
];

/// The first key from `i` on that is not among the names.
pub open spec fn first_missing(
    names: Seq<Seq<char>>,
    keys: Seq<&'static str>,
    i: int,
) -> Option<Seq<char>>
    decreases keys.len() - i,
{
    if i < 0 || i >= keys.len() {
        None
    } else if !names.contains(keys[i]@) {
        Some(keys[i]@)
    } else {
        first_missing(names, keys, i + 1)
    }
}

/// The names of an outline.
pub open spec fn outline_names(outline: OutlineModel) -> Seq<Seq<char>> {
    outline.map_values(|m: (Seq<char>, Option<Seq<Seq<char>>>)| m.0)
}

/// What an outline has under a name, first of all under that name.
pub open spec fn outline_member(outline: OutlineModel, name: Seq<char>) -> Option<Seq<Seq<char>>>
    decreases outline.len(),
{
    if outline.len() == 0 {
        None
    } else if outline[0].0 == name {
        outline[0].1
    } else {
        outline_member(outline.drop_first(), name)
    }
}

/// Why a payload's outline is refused: it is no object, a key is missing, the
/// chain status is no object, or a key of that is missing.
pub open spec fn outline_problem(outline: Option<OutlineModel>) -> Option<
    CheckpointRejectionModel,
> {
    match outline {
        None => Some(
            CheckpointRejectionModel::MalformedPayload { detail: "payload is not a JSON object"@ },
        ),
        Some(members) => match first_missing(outline_names(members), PAYLOAD_KEYS@, 0) {
            Some(key) => Some(CheckpointRejectionModel::MissingRequiredKey { key }),
            None => match outline_member(members, "device_reported_chain_status"@) {
                None => Some(
                    CheckpointRejectionModel::MalformedPayload {
                        detail: "device_reported_chain_status is not a JSON object"@,
                    },
                ),
                Some(names) => match first_missing(names, CHAIN_STATUS_KEYS@, 0) {
                    Some(key) => Some(CheckpointRejectionModel::MissingRequiredKey { key }),
                    None => None,
                },
            },
        },
    }
}

fn has_name(names: &Vec<String>, key: &str) -> (r: bool)
    ensures
        r == names.deep_view().contains(key@),
{
    let mut i: usize = 0;
    while i < names.len()
        invariant
            i <= names.len(),
            forall|j: int| 0 <= j < i ==> #[trigger] names.deep_view()[j] != key@,
        decreases names.len() - i,
    {
        if str_eq(names[i].as_str(), key) {
            assert(names.deep_view()[i as int] == key@);
            return true;
        }
        i = i + 1;
    }
    false
}

fn find_missing(names: &Vec<String>, keys: &[&'static str]) -> (r: Option<&'static str>)
    ensures
        match r {
            Some(key) => first_missing(names.deep_view(), keys@, 0) == Some(key@),
            None => first_missing(names.deep_view(), keys@, 0) is None,
        },
{
    let mut i: usize = 0;
    while i < keys.len()
        invariant
            i <= keys.len(),
            first_missing(names.deep_view(), keys@, 0) == first_missing(
                names.deep_view(),
                keys@,
                i as int,
            ),
        decreases keys.len() - i,
    {
        if !has_name(names, keys[i]) {
            return Some(keys[i]);
        }
        i = i + 1;
    }
    None
}

fn names_of(outline: &Outline) -> (r: Vec<String>)
    ensures
        r.deep_view() == outline_names(outline.deep_view()),
{
    let ghost expected = outline_names(outline.deep_view());
    let mut names: Vec<String> = Vec::new();
    let mut i: usize = 0;
    assert(names.deep_view() =~= expected.take(0));
    while i < outline.len()
        invariant
            i <= outline.len(),
            expected == outline_names(outline.deep_view()),
            expected.len() == outline.len(),
            names.deep_view() == expected.take(i as int),
        decreases outline.len() - i,
    {
        let name = outline[i].0.clone();
        assert(outline.deep_view()[i as int] == outline@[i as int].deep_view());
        assert(expected[i as int] == name@);
        let ghost before = names;
        names.push(name);
        proof {
            crate::model::lemma_deep_push(before, names, name);
            assert(expected.take(i as int + 1) =~= expected.take(i as int).push(
                expected[i as int],
            ));
        }
        i = i + 1;
    }
    assert(expected.take(expected.len() as int) =~= expected);
    names
}

fn find_member<'a>(outline: &'a Outline, name: &str) -> (r: Option<&'a Vec<String>>)
    ensures
        match r {
            Some(names) => outline_member(outline.deep_view(), name@) == Some(names.deep_view()),
            None => outline_member(outline.deep_view(), name@) is None,
        },
{
    let ghost all = outline.deep_view();
    let mut i: usize = 0;
    assert(all.skip(0) =~= all);
    while i < outline.len()
        invariant
            i <= outline.len(),
            all == outline.deep_view(),
            outline_member(all, name@) == outline_member(all.skip(i as int), name@),
        decreases outline.len() - i,
    {
        proof {
            assert(all.skip(i as int)[0] == outline@[i as int].deep_view());
            assert(all.skip(i as int).drop_first() =~= all.skip(i as int + 1));
        }
        if str_eq(outline[i].0.as_str(), name) {
            return match &outline[i].1 {
                Some(names) => Some(names),
                None => None,
            };
        }
        i = i + 1;
    }
    None
}

/// Checks that a payload has every key it must have, given its outline.
pub fn check_required_keys(outline: Option<Outline>) -> (r: Result<(), CheckpointRejection>)
    ensures
        match r {
            Ok(_) => outline_problem(outline.deep_view()) is None,
            Err(e) => outline_problem(outline.deep_view()) == Some(e.deep_view()),
        },
{
    let members = match outline {
        Some(members) => members,
        None => {
            return Err(
                CheckpointRejection::MalformedPayload {
                    detail: "payload is not a JSON object".to_owned(),
                },
            );
        },
    };
    let names = names_of(&members);
    if let Some(key) = find_missing(&names, PAYLOAD_KEYS.as_slice()) {
        return Err(CheckpointRejection::MissingRequiredKey { key });
    }
    match find_member(&members, "device_reported_chain_status") {
        Some(status) => {
            if let Some(key) = find_missing(status, CHAIN_STATUS_KEYS.as_slice()) {
                return Err(CheckpointRejection::MissingRequiredKey { key });
            }
            Ok(())
        },
        None => Err(
            CheckpointRejection::MalformedPayload {
                detail: "device_reported_chain_status is not a JSON object".to_owned(),
            },
        ),
    }
}

/// The outcome of authenticating a parsed envelope and looking for the keys
/// its payload must have.
pub open spec fn checkpoint_authentication(
    envelope: SignedAuditCheckpointModel,
    trusted: Seq<TrustedKeyModel>,
    now: Timestamp,
) -> Result<AuthenticatedAuditCheckpointModel, CheckpointRejectionModel> {
    if !checkpoint_schema_supported(envelope.checkpoint_schema_version) {
        Err(
            CheckpointRejectionModel::UnsupportedCheckpointSchemaVersion {
                found: envelope.checkpoint_schema_version,
                supported: SUPPORTED_CHECKPOINT_SCHEMA_VERSIONS@,
            },
        )
    } else {
        match envelope_verdict(
            envelope.payload_b64,
            envelope.signatures,
            AUDIT_CHECKPOINT_SIGNING_DOMAIN@,
            MAX_PAYLOAD_BYTES,
            trusted,
            now,
        ) {
            Err(e) => Err(checkpoint_rejection(e)),
            Ok((payload_bytes, verified_by)) => match json_outline(payload_bytes) {
                Err(detail) => Err(CheckpointRejectionModel::MalformedPayload { detail }),
                Ok(outline) => match outline_problem(outline) {
                    Some(e) => Err(e),
                    None => Ok(
                        AuthenticatedAuditCheckpointModel {
                            checkpoint_schema_version: envelope.checkpoint_schema_version,
                            payload_bytes,
                            verified_by,
                        },
                    ),
                },
            },
        }
    }
}

/// First step of verification: authenticates an envelope, given what its
/// bytes parsed to, and looks for the keys its payload must have.
pub fn authenticate_audit_checkpoint(
    envelope: Result<SignedAuditCheckpoint, String>,
    trusted: &TrustedVerificationKeys,
    now: Timestamp,
) -> (r: Result<AuthenticatedAuditCheckpoint, CheckpointRejection>)
    ensures
        match (envelope, r) {
            (Err(detail), Err(e)) => e.deep_view() == (CheckpointRejectionModel::MalformedEnvelope {
                detail: detail@,
            }),
            (Err(_), Ok(_)) => false,
            (Ok(envelope), Ok(checkpoint)) => checkpoint_authentication(
                envelope.deep_view(),
                trusted.keys.deep_view(),
                now,
            ) == Ok::<AuthenticatedAuditCheckpointModel, CheckpointRejectionModel>(
                checkpoint.deep_view(),
            ),
            (Ok(envelope), Err(e)) => checkpoint_authentication(
                envelope.deep_view(),
                trusted.keys.deep_view(),
                now,
            ) == Err::<AuthenticatedAuditCheckpointModel, CheckpointRejectionModel>(e.deep_view()),
        },
{
    let envelope = match envelope {
        Ok(e) => e,
        Err(detail) => {
            return Err(CheckpointRejection::MalformedEnvelope { detail });
        },
    };
    let supported = SUPPORTED_CHECKPOINT_SCHEMA_VERSIONS;
    if envelope.checkpoint_schema_version != supported[0] {
        let mut versions: Vec<u32> = Vec::new();
        versions.push(supported[0]);
        assert(versions.deep_view() =~= SUPPORTED_CHECKPOINT_SCHEMA_VERSIONS@);
        return Err(
            CheckpointRejection::UnsupportedCheckpointSchemaVersion {
                found: envelope.checkpoint_schema_version,
                supported: versions,
            },
        );
    }
    assert(SUPPORTED_CHECKPOINT_SCHEMA_VERSIONS@[0] == envelope.checkpoint_schema_version);
    let domain = AUDIT_CHECKPOINT_SIGNING_DOMAIN;
    let verified = match verify_signed_envelope(
        envelope.payload_b64.as_str(),
        &envelope.signatures,
        domain.as_slice(),
        MAX_PAYLOAD_BYTES,
        trusted,
        now,
    ) {
        Ok(v) => v,
        Err(e) => {
            return Err(CheckpointRejection::from(e));
        },
    };
    let outline = match read_outline(verified.payload_bytes.as_slice()) {
        Ok(outline) => outline,
        Err(detail) => {
            return Err(CheckpointRejection::MalformedPayload { detail });
        },
    };
    match check_required_keys(outline) {
        Ok(_) => Ok(
            AuthenticatedAuditCheckpoint {
                checkpoint_schema_version: envelope.checkpoint_schema_version,
                payload_bytes: verified.payload_bytes,
                verified_by: verified.verified_by,
            },
        ),
        Err(e) => Err(e),
    }
}

/// An authenticated checkpoint whose content has passed every check.
#[derive(Debug, Clone, PartialEq, Eq)]
pub struct VerifiedAuditCheckpoint {
    payload: AuditCheckpointPayload,
    verified_by: KeyId,
}

/// The mathematical value of a [`VerifiedAuditCheckpoint`].
#[verifier::ext_equal]
pub struct VerifiedAuditCheckpointModel {
    pub payload: AuditCheckpointPayloadModel,
    pub verified_by: Seq<char>,
}

impl DeepView for VerifiedAuditCheckpoint {
    type V = VerifiedAuditCheckpointModel;

    closed spec fn deep_view(&self) -> VerifiedAuditCheckpointModel {
        VerifiedAuditCheckpointModel {
            payload: self.payload.deep_view(),
            verified_by: self.verified_by.deep_view(),
        }
    }
}

impl VerifiedAuditCheckpoint {
    pub fn payload(&self) -> (r: &AuditCheckpointPayload)
        ensures
            r.deep_view() == self.deep_view().payload,
    {
        &self.payload
    }

    pub fn checkpoint_seq(&self) -> (r: u64)
        ensures
            r == self.deep_view().payload.checkpoint_seq,
    {
        self.payload.checkpoint_seq
    }

    pub fn head(&self) -> (r: &LedgerHead)
        ensures
            r.deep_view() == self.deep_view().payload.head,
    {
        &self.payload.head
    }

    pub fn issued_at(&self) -> (r: &str)
        ensures
            r@ == self.deep_view().payload.issued_at,
    {
        self.payload.issued_at.as_str()
    }

    pub fn device_id(&self) -> (r: &str)
        ensures
            r@ == self.deep_view().payload.device_id,
    {
        self.payload.device_id.as_str()
    }

    pub fn verified_by(&self) -> (r: &KeyId)
        ensures
            r.deep_view() == self.deep_view().verified_by,
    {
        &self.verified_by
    }
}

/// Whether a character is a lower-case hexadecimal digit.
pub open spec fn is_lower_hex(c: char) -> bool {
    ('0' <= c && c <= '9') || ('a' <= c && c <= 'f')
}

/// Whether a text is `sha256:` followed by 64 lower-case hexadecimal digits.
pub open spec fn is_entry_hash(value: Seq<char>) -> bool {
    &&& value.len() == 71
    &&& value.take(7) == "sha256:"@
    &&& forall|i: int| 7 <= i < 71 ==> is_lower_hex(#[trigger] value[i])
}

fn entry_hash_is_well_formed(value: &str) -> (r: bool)
    ensures
        r == is_entry_hash(value@),
{
    let chars = chars_of(value);
    if chars.len() != 71 {
        return false;
    }
    let prefix = value.substring_char(0, 7);
    assert(prefix@ =~= value@.take(7));
    if !str_eq(prefix, "sha256:") {
        return false;
    }
    let mut i: usize = 7;
    while i < 71
        invariant
            7 <= i <= 71,
            chars@ == value@,
            chars.len() == 71,
            forall|j: int| 7 <= j < i ==> is_lower_hex(#[trigger] value@[j]),
        decreases 71 - i,
    {
        let c = chars[i];
        if !(('0' <= c && c <= '9') || ('a' <= c && c <= 'f')) {
            assert(!is_lower_hex(value@[i as int]));
            return false;
        }
        i = i + 1;
    }
    true
}

/// What is wrong with a reported chain status: a valid chain names no
/// divergence, a diverged one names both what and where, and there is no other
/// status.
pub open spec fn chain_status_problem(status: DeviceReportedChainStatusModel) -> Option<
    CheckpointRejectionModel,
> {
    if status.status == "valid"@ {
        if status.first_bad_ledger_seq is Some || status.divergence_kind is Some {
            Some(CheckpointRejectionModel::ChainStatusInconsistent)
        } else {
            None
        }
    } else if status.status == "diverged"@ {
        if status.first_bad_ledger_seq is None || status.divergence_kind is None {
            Some(CheckpointRejectionModel::ChainStatusInconsistent)
        } else {
            None
        }
    } else {
        Some(CheckpointRejectionModel::UnrecognizedChainStatus { found: status.status })
    }
}

/// Why the content of an authenticated checkpoint is rejected, if it is.
pub open spec fn checkpoint_problem(
    checkpoint_schema_version: u32,
    payload: AuditCheckpointPayloadModel,
) -> Option<CheckpointRejectionModel> {
    if payload.checkpoint_schema_version != checkpoint_schema_version {
        Some(
            CheckpointRejectionModel::SchemaVersionMismatch {
                envelope: checkpoint_schema_version,
                payload: payload.checkpoint_schema_version,
            },
        )
    } else if rfc3339(payload.issued_at) is None {
        Some(
            CheckpointRejectionModel::MalformedTimestamp {
                field: "issued_at"@,
                value: payload.issued_at,
            },
        )
    } else if rfc3339(payload.observed_at) is None {
        Some(
            CheckpointRejectionModel::MalformedTimestamp {
                field: "observed_at"@,
                value: payload.observed_at,
            },
        )
    } else if is_blank(payload.issuer) {
        Some(CheckpointRejectionModel::EmptyIssuer)
    } else if is_blank(payload.device_id) {
        Some(CheckpointRejectionModel::EmptyDeviceId)
    } else if !is_entry_hash(payload.head.entry_hash) {
        Some(CheckpointRejectionModel::MalformedEntryHash { value: payload.head.entry_hash })
    } else if payload.head.ledger_seq < 1 {
        Some(CheckpointRejectionModel::LedgerSeqBelowOne { found: payload.head.ledger_seq })
    } else if payload.checkpoint_seq < 1 {
        Some(CheckpointRejectionModel::CheckpointSeqBelowOne { found: payload.checkpoint_seq })
    } else if (payload.prev_checkpoint is None) != (payload.checkpoint_seq == 1) {
        Some(
            CheckpointRejectionModel::PrevCheckpointPresenceInconsistent {
                checkpoint_seq: payload.checkpoint_seq,
            },
        )
    } else {
        chain_status_problem(payload.device_reported_chain_status)
    }
}

/// The outcome of checking what an authenticated payload parsed to.
pub open spec fn checkpoint_verification(
    checkpoint: AuthenticatedAuditCheckpointModel,
    payload: AuditCheckpointPayloadModel,
) -> Result<VerifiedAuditCheckpointModel, CheckpointRejectionModel> {
    match checkpoint_problem(checkpoint.checkpoint_schema_version, payload) {
        Some(e) => Err(e),
        None => Ok(
            VerifiedAuditCheckpointModel { payload, verified_by: checkpoint.verified_by },
        ),
    }
}

fn check_chain_status(status: &DeviceReportedChainStatus) -> (r: Result<(), CheckpointRejection>)
    ensures
        match r {
            Ok(_) => chain_status_problem(status.deep_view()) is None,
            Err(e) => chain_status_problem(status.deep_view()) == Some(e.deep_view()),
        },
{
    if str_eq(status.status.as_str(), "valid") {
        if status.first_bad_ledger_seq.is_some() || status.divergence_kind.is_some() {
            return Err(CheckpointRejection::ChainStatusInconsistent);
        }
        return Ok(());
    }
    if str_eq(status.status.as_str(), "diverged") {
        if status.first_bad_ledger_seq.is_none() || status.divergence_kind.is_none() {
            return Err(CheckpointRejection::ChainStatusInconsistent);
        }
        return Ok(());
    }
    Err(CheckpointRejection::UnrecognizedChainStatus { found: status.status.clone() })
}

/// Second step of verification: checks what the payload of an authenticated
/// checkpoint parsed to.
pub fn verify_audit_checkpoint(
    checkpoint: AuthenticatedAuditCheckpoint,
    payload: Result<AuditCheckpointPayload, String>,
) -> (r: Result<VerifiedAuditCheckpoint, CheckpointRejection>)
    ensures
        match (payload, r) {
            (Err(detail), Err(e)) => e.deep_view() == (CheckpointRejectionModel::MalformedPayload {
                detail: detail@,
            }),
            (Err(_), Ok(_)) => false,
            (Ok(payload), Ok(v)) => checkpoint_verification(
                checkpoint.deep_view(),
                payload.deep_view(),
            ) == Ok::<VerifiedAuditCheckpointModel, CheckpointRejectionModel>(v.deep_view()),
            (Ok(payload), Err(e)) => checkpoint_verification(
                checkpoint.deep_view(),
                payload.deep_view(),
            ) == Err::<VerifiedAuditCheckpointModel, CheckpointRejectionModel>(e.deep_view()),
        },
{
    let payload = match payload {
        Ok(p) => p,
        Err(detail) => {
            return Err(CheckpointRejection::MalformedPayload { detail });
        },
    };
    if payload.checkpoint_schema_version != checkpoint.checkpoint_schema_version {
        return Err(
            CheckpointRejection::SchemaVersionMismatch {
                envelope: checkpoint.checkpoint_schema_version,
                payload: payload.checkpoint_schema_version,
            },
        );
    }
    if parse_rfc3339(payload.issued_at.as_str()).is_none() {
        return Err(
            CheckpointRejection::MalformedTimestamp {
                field: "issued_at",
                value: payload.issued_at,
            },
        );
    }
    if parse_rfc3339(payload.observed_at.as_str()).is_none() {
        return Err(
            CheckpointRejection::MalformedTimestamp {
                field: "observed_at",
                value: payload.observed_at,
            },
        );
    }
    if blank(payload.issuer.as_str()) {
        return Err(CheckpointRejection::EmptyIssuer);
    }
    if blank(payload.device_id.as_str()) {
        return Err(CheckpointRejection::EmptyDeviceId);
    }
    if !entry_hash_is_well_formed(payload.head.entry_hash.as_str()) {
        return Err(CheckpointRejection::MalformedEntryHash { value: payload.head.entry_hash });
    }
    if payload.head.ledger_seq < 1 {
        return Err(CheckpointRejection::LedgerSeqBelowOne { found: payload.head.ledger_seq });
    }
    if payload.checkpoint_seq < 1 {
        return Err(CheckpointRejection::CheckpointSeqBelowOne { found: payload.checkpoint_seq });
    }
    if payload.prev_checkpoint.is_none() != (payload.checkpoint_seq == 1) {
        return Err(
            CheckpointRejection::PrevCheckpointPresenceInconsistent {
                checkpoint_seq: payload.checkpoint_seq,
            },
        );
    }
    match check_chain_status(&payload.device_reported_chain_status) {
        Ok(_) => Ok(
            VerifiedAuditCheckpoint { payload, verified_by: checkpoint.verified_by },
        ),
        Err(e) => Err(e),
    }
}

/// What a verified checkpoint says is consistent: its head is a position with
/// a hash, the first checkpoint of a series and no other has none before it,
/// and a divergence is named exactly where the chain is not valid.
pub proof fn law_verified_checkpoints_are_consistent(
    checkpoint: AuthenticatedAuditCheckpointModel,
    payload: AuditCheckpointPayloadModel,
)
    ensures
        checkpoint_verification(checkpoint, payload) matches Ok(v) ==> {
            &&& v.payload.head.ledger_seq >= 1
            &&& is_entry_hash(v.payload.head.entry_hash)
            &&& v.payload.checkpoint_seq >= 1
            &&& v.payload.prev_checkpoint is None <==> v.payload.checkpoint_seq == 1
            &&& v.payload.device_reported_chain_status.first_bad_ledger_seq is None
                <==> v.payload.device_reported_chain_status.status == "valid"@
            &&& v.payload.device_reported_chain_status.divergence_kind is None
                <==> v.payload.device_reported_chain_status.status == "valid"@
        },
{
    reveal_strlit("valid");
    reveal_strlit("diverged");
    assert("valid"@.len() != "diverged"@.len());
}

/// The three signing domains set signed content apart: none is the beginning
/// of another, so no signed message of one kind is a message of another.
pub proof fn law_signing_domains_are_separate(a: Seq<u8>, b: Seq<u8>)
    ensures
        AUDIT_CHECKPOINT_SIGNING_DOMAIN@ + a != BUNDLE_SIGNING_DOMAIN@ + b,
        AUDIT_CHECKPOINT_SIGNING_DOMAIN@ + a != REVOCATION_SIGNING_DOMAIN@ + b,
        BUNDLE_SIGNING_DOMAIN@ + a != REVOCATION_SIGNING_DOMAIN@ + b,
{
    let c = AUDIT_CHECKPOINT_SIGNING_DOMAIN@;
    let p = BUNDLE_SIGNING_DOMAIN@;
    let r = REVOCATION_SIGNING_DOMAIN@;
    assert((c + a)[7] == c[7] && (p + b)[7] == p[7] && (r + b)[7] == r[7]);
    assert((p + a)[14] == p[14] && (r + b)[14] == r[14]);
    assert(c[7] == 97 && p[7] == 112 && r[7] == 112);
    assert(p[14] == 98 && r[14] == 114);
}

} // verus!

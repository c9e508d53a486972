//! Signed policy bundles.
//!
//! The signature covers the transmitted payload bytes behind a signing
//! domain, never the payload alone. A payload is parsed only once it has been
//! authenticated, so verification comes in two steps: [`authenticate_bundle`]
//! hands out the payload bytes, and [`verify_bundle`] takes what they parse
//! to. A trust decision fails closed: an algorithm that is not recognised is
//! never an accepted signature.
use vstd::prelude::*;

use super::diagnostics::PolicyValidationReport;
use super::revision::{PublishedPolicyRevision, PublishedPolicyRevisionModel};
use super::target::{
    join_refusal, BoundRevision, BoundRevisionModel, PolicyBinding, PolicyBindingModel,
};
use crate::crypto::{
    base64_decoded, decode_base64, decode_public_key, decode_signature, digest_string, digest_text,
    ed25519_signed, public_key, signature_accepted, signature_bytes,
};
use crate::ident::Uuid;
use crate::model::{known_tag, lemma_deep_push, Deep, Tag};
use crate::order::{text_key, OrderKey, Ordered, Sortable};
use crate::text::{quote_debug, str_before, str_debug};
use crate::time::{moved_back, parse_rfc3339, rfc3339, Timestamp};

verus! {

pub const BUNDLE_SCHEMA_VERSION: u32 = 1;

pub const SUPPORTED_BUNDLE_SCHEMA_VERSIONS: [u32; 1] = [1];

pub const MAX_PAYLOAD_BYTES: usize = 1_048_576;

pub const MAX_SIGNATURES: usize = 8;

pub const CLOCK_SKEW_TOLERANCE_SECONDS: i64 = 300;

/// What stands before the payload bytes of a signed bundle.
pub const BUNDLE_SIGNING_DOMAIN: [u8; 24] = [
    102, 111, 114, 110, 97, 120, 45, 112, 111, 108, 105, 99, 121, 45, 98, 117, 110, 100, 108, 101,
    47, 118, 49, 10,
];

/// Names a verification key, never signed content.
#[derive(Debug, Clone, PartialEq, Eq, PartialOrd, Ord, Hash)]
pub struct KeyId(pub String);

impl DeepView for KeyId {
    type V = Seq<char>;

    open spec fn deep_view(&self) -> Seq<char> {
        self.0@
    }
}

impl Deep for KeyId {
    fn deep_clone(&self) -> (r: Self) {
        KeyId(self.0.clone())
    }

    fn deep_eq(&self, other: &Self) -> (r: bool) {
        self.0 == other.0
    }
}

/// A signature algorithm. An unrecognised one is carried, and always refused.
#[derive(Debug, Clone, PartialEq, Eq)]
pub enum SignatureAlgorithm {
    Ed25519,
    /// A value this binary does not recognise, kept as it was written.
    Unrecognized(String),
}

impl DeepView for SignatureAlgorithm {
    type V = Tag;

    open spec fn deep_view(&self) -> Tag {
        match self {
            SignatureAlgorithm::Ed25519 => known_tag(0),
            SignatureAlgorithm::Unrecognized(s) => Tag { index: 1, text: s@ },
        }
    }
}

impl SignatureAlgorithm {
    fn index(&self) -> (r: u8)
        ensures
            r == self.deep_view().index,
    {
        match self {
            SignatureAlgorithm::Ed25519 => 0,
            SignatureAlgorithm::Unrecognized(_) => 1,
        }
    }
}

impl Deep for SignatureAlgorithm {
    fn deep_clone(&self) -> (r: Self) {
        match self {
            SignatureAlgorithm::Ed25519 => SignatureAlgorithm::Ed25519,
            SignatureAlgorithm::Unrecognized(s) => SignatureAlgorithm::Unrecognized(s.clone()),
        }
    }

    fn deep_eq(&self, other: &Self) -> (r: bool) {
        match (self, other) {
            (SignatureAlgorithm::Unrecognized(a), SignatureAlgorithm::Unrecognized(b)) => *a == *b,
            _ => self.index() == other.index(),
        }
    }
}

#[derive(Debug, Clone, PartialEq, Eq)]
pub struct BundleSignature {
    pub key_id: KeyId,
    pub algorithm: SignatureAlgorithm,
    pub signature_b64: String,
}

/// The mathematical value of a [`BundleSignature`].
#[verifier::ext_equal]
pub struct BundleSignatureModel {
    pub key_id: Seq<char>,
    pub algorithm: Tag,
    pub signature_b64: Seq<char>,
}

impl DeepView for BundleSignature {
    type V = BundleSignatureModel;

    open spec fn deep_view(&self) -> BundleSignatureModel {
        BundleSignatureModel {
            key_id: self.key_id.deep_view(),
            algorithm: self.algorithm.deep_view(),
            signature_b64: self.signature_b64.deep_view(),
        }
    }
}

impl Deep for BundleSignature {
    fn deep_clone(&self) -> (r: Self) {
        BundleSignature {
            key_id: self.key_id.deep_clone(),
            algorithm: self.algorithm.deep_clone(),
            signature_b64: self.signature_b64.deep_clone(),
        }
    }

    fn deep_eq(&self, other: &Self) -> (r: bool) {
        self.key_id.deep_eq(&other.key_id)
            && self.algorithm.deep_eq(&other.algorithm)
            && self.signature_b64.deep_eq(&other.signature_b64)
    }
}

/// The envelope of a bundle. It asserts nothing about its own validity.
#[derive(Debug, Clone, PartialEq, Eq)]
pub struct SignedPolicyBundle {
    pub bundle_schema_version: u32,
    pub payload_b64: String,
    pub signatures: Vec<BundleSignature>,
}

/// The mathematical value of a [`SignedPolicyBundle`].
#[verifier::ext_equal]
pub struct SignedPolicyBundleModel {
    pub bundle_schema_version: u32,
    pub payload_b64: Seq<char>,
    pub signatures: Seq<BundleSignatureModel>,
}

impl DeepView for SignedPolicyBundle {
    type V = SignedPolicyBundleModel;

    open spec fn deep_view(&self) -> SignedPolicyBundleModel {
        SignedPolicyBundleModel {
            bundle_schema_version: self.bundle_schema_version.deep_view(),
            payload_b64: self.payload_b64.deep_view(),
            signatures: self.signatures.deep_view(),
        }
    }
}

impl Deep for SignedPolicyBundle {
    fn deep_clone(&self) -> (r: Self) {
        SignedPolicyBundle {
            bundle_schema_version: self.bundle_schema_version.deep_clone(),
            payload_b64: self.payload_b64.deep_clone(),
            signatures: self.signatures.deep_clone(),
        }
    }

    fn deep_eq(&self, other: &Self) -> (r: bool) {
        self.bundle_schema_version.deep_eq(&other.bundle_schema_version)
            && self.payload_b64.deep_eq(&other.payload_b64)
            && self.signatures.deep_eq(&other.signatures)
    }
}

/// `"sha256:<hex>"` over the exact signed payload bytes.
#[derive(Debug, Clone, PartialEq, Eq, PartialOrd, Ord)]
pub struct PayloadDigest(String);

impl DeepView for PayloadDigest {
    type V = Seq<char>;

    closed spec fn deep_view(&self) -> Seq<char> {
        self.0@
    }
}

impl Deep for PayloadDigest {
    fn deep_clone(&self) -> (r: Self) {
        PayloadDigest(self.0.clone())
    }

    fn deep_eq(&self, other: &Self) -> (r: bool) {
        self.0 == other.0
    }
}

impl Sortable for PayloadDigest {
    open spec fn sort_key(v: Seq<char>) -> OrderKey {
        text_key(v)
    }

    fn sorts_before(&self, other: &Self) -> (r: bool) {
        str_before(self.0.as_str(), other.0.as_str())
    }
}

impl Ordered for PayloadDigest {
    proof fn key_is_injective(a: Seq<char>, b: Seq<char>) {
    }
}

impl PayloadDigest {
    /// A digest as it was written; nothing is checked.
    pub fn from_text(text: String) -> (r: Self)
        ensures
            r.deep_view() == text@,
    {
        PayloadDigest(text)
    }

    pub fn as_str(&self) -> (r: &str)
        ensures
            r@ == self.deep_view(),
    {
        self.0.as_str()
    }
}

/// Digests the payload bytes of an envelope.
pub fn digest_payload_bytes(bytes: &[u8]) -> (r: PayloadDigest)
    ensures
        r.deep_view() == digest_text(bytes@),
{
    PayloadDigest(digest_string(bytes))
}

#[derive(Debug, Clone, PartialEq, Eq)]
pub struct BundleProvenance {
    pub issuer: String,
    pub audit_ref: Option<String>,
    pub authorized_by: Option<String>,
}

/// The mathematical value of a [`BundleProvenance`].
#[verifier::ext_equal]
pub struct BundleProvenanceModel {
    pub issuer: Seq<char>,
    pub audit_ref: Option<Seq<char>>,
    pub authorized_by: Option<Seq<char>>,
}

impl DeepView for BundleProvenance {
    type V = BundleProvenanceModel;

    open spec fn deep_view(&self) -> BundleProvenanceModel {
        BundleProvenanceModel {
            issuer: self.issuer.deep_view(),
            audit_ref: self.audit_ref.deep_view(),
            authorized_by: self.authorized_by.deep_view(),
        }
    }
}

impl Deep for BundleProvenance {
    fn deep_clone(&self) -> (r: Self) {
        BundleProvenance {
            issuer: self.issuer.deep_clone(),
            audit_ref: self.audit_ref.deep_clone(),
            authorized_by: self.authorized_by.deep_clone(),
        }
    }

    fn deep_eq(&self, other: &Self) -> (r: bool) {
        self.issuer.deep_eq(&other.issuer)
            && self.audit_ref.deep_eq(&other.audit_ref)
            && self.authorized_by.deep_eq(&other.authorized_by)
    }
}

/// The content of a bundle, parsed from authenticated bytes.
#[derive(Debug, Clone, PartialEq, Eq)]
pub struct BundlePayload {
    pub bundle_schema_version: u32,
    pub bundle_id: Uuid,
    /// Increasing per issuer. Not checked here: that needs a point of comparison,
    /// which activation has.
    pub sequence: u64,
    pub issued_at: String,
    pub not_before: String,
    pub expires_at: String,
    pub provenance: BundleProvenance,
    pub revision: PublishedPolicyRevision,
    pub bindings: Vec<PolicyBinding>,
}

/// The mathematical value of a [`BundlePayload`].
#[verifier::ext_equal]
pub struct BundlePayloadModel {
    pub bundle_schema_version: u32,
    pub bundle_id: Uuid,
    pub sequence: u64,
    pub issued_at: Seq<char>,
    pub not_before: Seq<char>,
    pub expires_at: Seq<char>,
    pub provenance: BundleProvenanceModel,
    pub revision: PublishedPolicyRevisionModel,
    pub bindings: Seq<PolicyBindingModel>,
}

impl DeepView for BundlePayload {
    type V = BundlePayloadModel;

    open spec fn deep_view(&self) -> BundlePayloadModel {
        BundlePayloadModel {
            bundle_schema_version: self.bundle_schema_version.deep_view(),
            bundle_id: self.bundle_id.deep_view(),
            sequence: self.sequence.deep_view(),
            issued_at: self.issued_at.deep_view(),
            not_before: self.not_before.deep_view(),
            expires_at: self.expires_at.deep_view(),
            provenance: self.provenance.deep_view(),
            revision: self.revision.deep_view(),
            bindings: self.bindings.deep_view(),
        }
    }
}

impl Deep for BundlePayload {
    fn deep_clone(&self) -> (r: Self) {
        BundlePayload {
            bundle_schema_version: self.bundle_schema_version.deep_clone(),
            bundle_id: self.bundle_id.deep_clone(),
            sequence: self.sequence.deep_clone(),
            issued_at: self.issued_at.deep_clone(),
            not_before: self.not_before.deep_clone(),
            expires_at: self.expires_at.deep_clone(),
            provenance: self.provenance.deep_clone(),
            revision: self.revision.deep_clone(),
            bindings: self.bindings.deep_clone(),
        }
    }

    fn deep_eq(&self, other: &Self) -> (r: bool) {
        self.bundle_schema_version.deep_eq(&other.bundle_schema_version)
            && self.bundle_id.deep_eq(&other.bundle_id)
            && self.sequence.deep_eq(&other.sequence)
            && self.issued_at.deep_eq(&other.issued_at)
            && self.not_before.deep_eq(&other.not_before)
            && self.expires_at.deep_eq(&other.expires_at)
            && self.provenance.deep_eq(&other.provenance)
            && self.revision.deep_eq(&other.revision)
            && self.bindings.deep_eq(&other.bindings)
    }
}

/// One entry of a trust store. Trust roots are static configuration.
#[derive(Debug, Clone, PartialEq, Eq)]
pub struct TrustedKey {
    pub key_id: KeyId,
    pub algorithm: SignatureAlgorithm,
    /// 32 raw Ed25519 public-key bytes in strict base64.
    pub public_key_b64: String,
    pub not_before: Option<String>,
    pub not_after: Option<String>,
    pub comment: Option<String>,
}

/// The mathematical value of a [`TrustedKey`].
#[verifier::ext_equal]
pub struct TrustedKeyModel {
    pub key_id: Seq<char>,
    pub algorithm: Tag,
    pub public_key_b64: Seq<char>,
    pub not_before: Option<Seq<char>>,
    pub not_after: Option<Seq<char>>,
    pub comment: Option<Seq<char>>,
}

impl DeepView for TrustedKey {
    type V = TrustedKeyModel;

    open spec fn deep_view(&self) -> TrustedKeyModel {
        TrustedKeyModel {
            key_id: self.key_id.deep_view(),
            algorithm: self.algorithm.deep_view(),
            public_key_b64: self.public_key_b64.deep_view(),
            not_before: self.not_before.deep_view(),
            not_after: self.not_after.deep_view(),
            comment: self.comment.deep_view(),
        }
    }
}

impl Deep for TrustedKey {
    fn deep_clone(&self) -> (r: Self) {
        TrustedKey {
            key_id: self.key_id.deep_clone(),
            algorithm: self.algorithm.deep_clone(),
            public_key_b64: self.public_key_b64.deep_clone(),
            not_before: self.not_before.deep_clone(),
            not_after: self.not_after.deep_clone(),
            comment: self.comment.deep_clone(),
        }
    }

    fn deep_eq(&self, other: &Self) -> (r: bool) {
        self.key_id.deep_eq(&other.key_id)
            && self.algorithm.deep_eq(&other.algorithm)
            && self.public_key_b64.deep_eq(&other.public_key_b64)
            && self.not_before.deep_eq(&other.not_before)
            && self.not_after.deep_eq(&other.not_after)
            && self.comment.deep_eq(&other.comment)
    }
}

/// The keys a device trusts.
#[derive(Debug, Clone, PartialEq, Eq)]
pub struct TrustedVerificationKeys {
    pub schema_version: u32,
    pub keys: Vec<TrustedKey>,
}

/// The mathematical value of a [`TrustedVerificationKeys`].
#[verifier::ext_equal]
pub struct TrustedVerificationKeysModel {
    pub schema_version: u32,
    pub keys: Seq<TrustedKeyModel>,
}

impl DeepView for TrustedVerificationKeys {
    type V = TrustedVerificationKeysModel;

    open spec fn deep_view(&self) -> TrustedVerificationKeysModel {
        TrustedVerificationKeysModel {
            schema_version: self.schema_version.deep_view(),
            keys: self.keys.deep_view(),
        }
    }
}

impl Deep for TrustedVerificationKeys {
    fn deep_clone(&self) -> (r: Self) {
        TrustedVerificationKeys {
            schema_version: self.schema_version.deep_clone(),
            keys: self.keys.deep_clone(),
        }
    }

    fn deep_eq(&self, other: &Self) -> (r: bool) {
        self.schema_version.deep_eq(&other.schema_version)
            && self.keys.deep_eq(&other.keys)
    }
}

/// Why a trust store cannot be used.
#[derive(Debug, Clone, PartialEq, Eq)]
pub enum TrustStoreError {
    Malformed { detail: String },
    DuplicateKeyId { key_id: KeyId },
    MalformedKey { key_id: KeyId },
    Empty,
}

/// The mathematical value of a [`TrustStoreError`].
#[verifier::ext_equal]
pub enum TrustStoreErrorModel {
    Malformed { detail: Seq<char> },
    DuplicateKeyId { key_id: Seq<char> },
    MalformedKey { key_id: Seq<char> },
    Empty,
}

impl DeepView for TrustStoreError {
    type V = TrustStoreErrorModel;

    open spec fn deep_view(&self) -> TrustStoreErrorModel {
        match self {
            TrustStoreError::Malformed { detail } => TrustStoreErrorModel::Malformed {
                detail: detail.deep_view(),
            },
            TrustStoreError::DuplicateKeyId { key_id } => TrustStoreErrorModel::DuplicateKeyId {
                key_id: key_id.deep_view(),
            },
            TrustStoreError::MalformedKey { key_id } => TrustStoreErrorModel::MalformedKey {
                key_id: key_id.deep_view(),
            },
            TrustStoreError::Empty => TrustStoreErrorModel::Empty,
        }
    }
}

/// Why a bundle is rejected: one variant per check.
#[derive(Debug, Clone, PartialEq, Eq)]
pub enum BundleRejection {
    MalformedEnvelope { detail: String },
    UnsupportedBundleSchemaVersion { found: u32, supported: Vec<u32> },
    SchemaVersionMismatch { envelope: u32, payload: u32 },
    MalformedPayloadEncoding { detail: String },
    PayloadTooLarge { found: usize, max: usize },
    NoSignatures,
    TooManySignatures { found: usize, max: usize },
    UnknownKeyId { offered: Vec<KeyId> },
    UnsupportedAlgorithm { key_id: KeyId, algorithm: SignatureAlgorithm },
    MalformedSignature { key_id: KeyId },
    KeyNotYetValid { key_id: KeyId, not_before: String, now: Timestamp },
    KeyRetired { key_id: KeyId, not_after: String, now: Timestamp },
    SignatureInvalid { key_ids: Vec<KeyId> },
    MalformedPayload { detail: String },
    MalformedTimestamp { field: &'static str, value: String },
    BundleNotYetValid { not_before: String, now: Timestamp, tolerance_seconds: i64 },
    BundleExpired { expires_at: String, now: Timestamp },
    BindingRevisionMismatch { binding_id: Uuid, expected: String, actual: String },
}

/// The mathematical value of a [`BundleRejection`].
#[verifier::ext_equal]
pub enum BundleRejectionModel {
    MalformedEnvelope { detail: Seq<char> },
    UnsupportedBundleSchemaVersion { found: u32, supported: Seq<u32> },
    SchemaVersionMismatch { envelope: u32, payload: u32 },
    MalformedPayloadEncoding { detail: Seq<char> },
    PayloadTooLarge { found: usize, max: usize },
    NoSignatures,
    TooManySignatures { found: usize, max: usize },
    UnknownKeyId { offered: Seq<Seq<char>> },
    UnsupportedAlgorithm { key_id: Seq<char>, algorithm: Tag },
    MalformedSignature { key_id: Seq<char> },
    KeyNotYetValid { key_id: Seq<char>, not_before: Seq<char>, now: Timestamp },
    KeyRetired { key_id: Seq<char>, not_after: Seq<char>, now: Timestamp },
    SignatureInvalid { key_ids: Seq<Seq<char>> },
    MalformedPayload { detail: Seq<char> },
    MalformedTimestamp { field: Seq<char>, value: Seq<char> },
    BundleNotYetValid { not_before: Seq<char>, now: Timestamp, tolerance_seconds: i64 },
    BundleExpired { expires_at: Seq<char>, now: Timestamp },
    BindingRevisionMismatch { binding_id: Uuid, expected: Seq<char>, actual: Seq<char> },
}

impl DeepView for BundleRejection {
    type V = BundleRejectionModel;

    open spec fn deep_view(&self) -> BundleRejectionModel {
        match self {
            BundleRejection::MalformedEnvelope { detail } => BundleRejectionModel::MalformedEnvelope {
                detail: detail.deep_view(),
            },
            BundleRejection::UnsupportedBundleSchemaVersion { found, supported } => BundleRejectionModel::UnsupportedBundleSchemaVersion {
                found: found.deep_view(),
                supported: supported.deep_view(),
            },
            BundleRejection::SchemaVersionMismatch { envelope, payload } => BundleRejectionModel::SchemaVersionMismatch {
                envelope: envelope.deep_view(),
                payload: payload.deep_view(),
            },
            BundleRejection::MalformedPayloadEncoding { detail } => BundleRejectionModel::MalformedPayloadEncoding {
                detail: detail.deep_view(),
            },
            BundleRejection::PayloadTooLarge { found, max } => BundleRejectionModel::PayloadTooLarge {
                found: found.deep_view(),
                max: max.deep_view(),
            },
            BundleRejection::NoSignatures => BundleRejectionModel::NoSignatures,
            BundleRejection::TooManySignatures { found, max } => BundleRejectionModel::TooManySignatures {
                found: found.deep_view(),
                max: max.deep_view(),
            },
            BundleRejection::UnknownKeyId { offered } => BundleRejectionModel::UnknownKeyId {
                offered: offered.deep_view(),
            },
            BundleRejection::UnsupportedAlgorithm { key_id, algorithm } => BundleRejectionModel::UnsupportedAlgorithm {
                key_id: key_id.deep_view(),
                algorithm: algorithm.deep_view(),
            },
            BundleRejection::MalformedSignature { key_id } => BundleRejectionModel::MalformedSignature {
                key_id: key_id.deep_view(),
            },
            BundleRejection::KeyNotYetValid { key_id, not_before, now } => BundleRejectionModel::KeyNotYetValid {
                key_id: key_id.deep_view(),
                not_before: not_before.deep_view(),
                now: now.deep_view(),
            },
            BundleRejection::KeyRetired { key_id, not_after, now } => BundleRejectionModel::KeyRetired {
                key_id: key_id.deep_view(),
                not_after: not_after.deep_view(),
                now: now.deep_view(),
            },
            BundleRejection::SignatureInvalid { key_ids } => BundleRejectionModel::SignatureInvalid {
                key_ids: key_ids.deep_view(),
            },
            BundleRejection::MalformedPayload { detail } => BundleRejectionModel::MalformedPayload {
                detail: detail.deep_view(),
            },
            BundleRejection::MalformedTimestamp { field, value } => BundleRejectionModel::MalformedTimestamp {
                field: field.deep_view(),
                value: value.deep_view(),
            },
            BundleRejection::BundleNotYetValid { not_before, now, tolerance_seconds } => BundleRejectionModel::BundleNotYetValid {
                not_before: not_before.deep_view(),
                now: now.deep_view(),
                tolerance_seconds: tolerance_seconds.deep_view(),
            },
            BundleRejection::BundleExpired { expires_at, now } => BundleRejectionModel::BundleExpired {
                expires_at: expires_at.deep_view(),
                now: now.deep_view(),
            },
            BundleRejection::BindingRevisionMismatch { binding_id, expected, actual } => BundleRejectionModel::BindingRevisionMismatch {
                binding_id: binding_id.deep_view(),
                expected: expected.deep_view(),
                actual: actual.deep_view(),
            },
        }
    }
}

/// Why an envelope cannot be authenticated.
#[derive(Debug, Clone, PartialEq, Eq)]
pub enum EnvelopeVerificationError {
    MalformedPayloadEncoding { detail: String },
    PayloadTooLarge { found: usize, max: usize },
    NoSignatures,
    TooManySignatures { found: usize, max: usize },
    UnknownKeyId { offered: Vec<KeyId> },
    UnsupportedAlgorithm { key_id: KeyId, algorithm: SignatureAlgorithm },
    MalformedSignature { key_id: KeyId },
    KeyNotYetValid { key_id: KeyId, not_before: String, now: Timestamp },
    KeyRetired { key_id: KeyId, not_after: String, now: Timestamp },
    SignatureInvalid { key_ids: Vec<KeyId> },
    MalformedKeyTimestamp { field: &'static str, value: String },
}

/// The mathematical value of a [`EnvelopeVerificationError`].
#[verifier::ext_equal]
pub enum EnvelopeVerificationErrorModel {
    MalformedPayloadEncoding { detail: Seq<char> },
    PayloadTooLarge { found: usize, max: usize },
    NoSignatures,
    TooManySignatures { found: usize, max: usize },
    UnknownKeyId { offered: Seq<Seq<char>> },
    UnsupportedAlgorithm { key_id: Seq<char>, algorithm: Tag },
    MalformedSignature { key_id: Seq<char> },
    KeyNotYetValid { key_id: Seq<char>, not_before: Seq<char>, now: Timestamp },
    KeyRetired { key_id: Seq<char>, not_after: Seq<char>, now: Timestamp },
    SignatureInvalid { key_ids: Seq<Seq<char>> },
    MalformedKeyTimestamp { field: Seq<char>, value: Seq<char> },
}

impl DeepView for EnvelopeVerificationError {
    type V = EnvelopeVerificationErrorModel;

    open spec fn deep_view(&self) -> EnvelopeVerificationErrorModel {
        match self {
            EnvelopeVerificationError::MalformedPayloadEncoding { detail } => EnvelopeVerificationErrorModel::MalformedPayloadEncoding {
                detail: detail.deep_view(),
            },
            EnvelopeVerificationError::PayloadTooLarge { found, max } => EnvelopeVerificationErrorModel::PayloadTooLarge {
                found: found.deep_view(),
                max: max.deep_view(),
            },
            EnvelopeVerificationError::NoSignatures => EnvelopeVerificationErrorModel::NoSignatures,
            EnvelopeVerificationError::TooManySignatures { found, max } => EnvelopeVerificationErrorModel::TooManySignatures {
                found: found.deep_view(),
                max: max.deep_view(),
            },
            EnvelopeVerificationError::UnknownKeyId { offered } => EnvelopeVerificationErrorModel::UnknownKeyId {
                offered: offered.deep_view(),
            },
            EnvelopeVerificationError::UnsupportedAlgorithm { key_id, algorithm } => EnvelopeVerificationErrorModel::UnsupportedAlgorithm {
                key_id: key_id.deep_view(),
                algorithm: algorithm.deep_view(),
            },
            EnvelopeVerificationError::MalformedSignature { key_id } => EnvelopeVerificationErrorModel::MalformedSignature {
                key_id: key_id.deep_view(),
            },
            EnvelopeVerificationError::KeyNotYetValid { key_id, not_before, now } => EnvelopeVerificationErrorModel::KeyNotYetValid {
                key_id: key_id.deep_view(),
                not_before: not_before.deep_view(),
                now: now.deep_view(),
            },
            EnvelopeVerificationError::KeyRetired { key_id, not_after, now } => EnvelopeVerificationErrorModel::KeyRetired {
                key_id: key_id.deep_view(),
                not_after: not_after.deep_view(),
                now: now.deep_view(),
            },
            EnvelopeVerificationError::SignatureInvalid { key_ids } => EnvelopeVerificationErrorModel::SignatureInvalid {
                key_ids: key_ids.deep_view(),
            },
            EnvelopeVerificationError::MalformedKeyTimestamp { field, value } => EnvelopeVerificationErrorModel::MalformedKeyTimestamp {
                field: field.deep_view(),
                value: value.deep_view(),
            },
        }
    }
}

impl From<EnvelopeVerificationError> for BundleRejection {
    fn from(e: EnvelopeVerificationError) -> (r: Self) {
        match e {
            EnvelopeVerificationError::MalformedPayloadEncoding { detail } => BundleRejection::MalformedPayloadEncoding { detail },
            EnvelopeVerificationError::PayloadTooLarge { found, max } => BundleRejection::PayloadTooLarge { found, max },
            EnvelopeVerificationError::NoSignatures => BundleRejection::NoSignatures,
            EnvelopeVerificationError::TooManySignatures { found, max } => BundleRejection::TooManySignatures { found, max },
            EnvelopeVerificationError::UnknownKeyId { offered } => BundleRejection::UnknownKeyId { offered },
            EnvelopeVerificationError::UnsupportedAlgorithm { key_id, algorithm } => BundleRejection::UnsupportedAlgorithm { key_id, algorithm },
            EnvelopeVerificationError::MalformedSignature { key_id } => BundleRejection::MalformedSignature { key_id },
            EnvelopeVerificationError::KeyNotYetValid { key_id, not_before, now } => BundleRejection::KeyNotYetValid { key_id, not_before, now },
            EnvelopeVerificationError::KeyRetired { key_id, not_after, now } => BundleRejection::KeyRetired { key_id, not_after, now },
            EnvelopeVerificationError::SignatureInvalid { key_ids } => BundleRejection::SignatureInvalid { key_ids },
            EnvelopeVerificationError::MalformedKeyTimestamp { field, value } => BundleRejection::MalformedTimestamp { field, value },
        }
    }
}

impl vstd::std_specs::convert::FromSpecImpl<EnvelopeVerificationError> for BundleRejection {
    open spec fn obeys_from_spec() -> bool {
        true
    }

    open spec fn from_spec(e: EnvelopeVerificationError) -> Self {
        match e {
            EnvelopeVerificationError::MalformedPayloadEncoding { detail } => BundleRejection::MalformedPayloadEncoding { detail },
            EnvelopeVerificationError::PayloadTooLarge { found, max } => BundleRejection::PayloadTooLarge { found, max },
            EnvelopeVerificationError::NoSignatures => BundleRejection::NoSignatures,
            EnvelopeVerificationError::TooManySignatures { found, max } => BundleRejection::TooManySignatures { found, max },
            EnvelopeVerificationError::UnknownKeyId { offered } => BundleRejection::UnknownKeyId { offered },
            EnvelopeVerificationError::UnsupportedAlgorithm { key_id, algorithm } => BundleRejection::UnsupportedAlgorithm { key_id, algorithm },
            EnvelopeVerificationError::MalformedSignature { key_id } => BundleRejection::MalformedSignature { key_id },
            EnvelopeVerificationError::KeyNotYetValid { key_id, not_before, now } => BundleRejection::KeyNotYetValid { key_id, not_before, now },
            EnvelopeVerificationError::KeyRetired { key_id, not_after, now } => BundleRejection::KeyRetired { key_id, not_after, now },
            EnvelopeVerificationError::SignatureInvalid { key_ids } => BundleRejection::SignatureInvalid { key_ids },
            EnvelopeVerificationError::MalformedKeyTimestamp { field, value } => BundleRejection::MalformedTimestamp { field, value },
        }
    }
}

/// The rejection an envelope error amounts to: the same check, under the same
/// name.
pub open spec fn bundle_rejection(e: EnvelopeVerificationErrorModel) -> BundleRejectionModel {
    match e {
        EnvelopeVerificationErrorModel::MalformedPayloadEncoding { detail } => BundleRejectionModel::MalformedPayloadEncoding { detail },
        EnvelopeVerificationErrorModel::PayloadTooLarge { found, max } => BundleRejectionModel::PayloadTooLarge { found, max },
        EnvelopeVerificationErrorModel::NoSignatures => BundleRejectionModel::NoSignatures,
        EnvelopeVerificationErrorModel::TooManySignatures { found, max } => BundleRejectionModel::TooManySignatures { found, max },
        EnvelopeVerificationErrorModel::UnknownKeyId { offered } => BundleRejectionModel::UnknownKeyId { offered },
        EnvelopeVerificationErrorModel::UnsupportedAlgorithm { key_id, algorithm } => BundleRejectionModel::UnsupportedAlgorithm { key_id, algorithm },
        EnvelopeVerificationErrorModel::MalformedSignature { key_id } => BundleRejectionModel::MalformedSignature { key_id },
        EnvelopeVerificationErrorModel::KeyNotYetValid { key_id, not_before, now } => BundleRejectionModel::KeyNotYetValid { key_id, not_before, now },
        EnvelopeVerificationErrorModel::KeyRetired { key_id, not_after, now } => BundleRejectionModel::KeyRetired { key_id, not_after, now },
        EnvelopeVerificationErrorModel::SignatureInvalid { key_ids } => BundleRejectionModel::SignatureInvalid { key_ids },
        EnvelopeVerificationErrorModel::MalformedKeyTimestamp { field, value } => BundleRejectionModel::MalformedTimestamp { field, value },
    }
}

/// The first key of a store with a given identifier.
pub open spec fn trusted_key(keys: Seq<TrustedKeyModel>, key_id: Seq<char>) -> Option<
    TrustedKeyModel,
>
    decreases keys.len(),
{
    if keys.len() == 0 {
        None
    } else if keys[0].key_id == key_id {
        Some(keys[0])
    } else {
        trusted_key(keys.drop_first(), key_id)
    }
}

fn find_key<'a>(keys: &'a Vec<TrustedKey>, n: usize, key_id: &KeyId) -> (r: Option<&'a TrustedKey>)
    requires
        n <= keys.len(),
    ensures
        match r {
            Some(key) => trusted_key(keys.deep_view().take(n as int), key_id.deep_view()) == Some(
                key.deep_view(),
            ),
            None => trusted_key(keys.deep_view().take(n as int), key_id.deep_view()) is None,
        },
{
    let ghost all = keys.deep_view().take(n as int);
    let mut i: usize = 0;
    assert(all.skip(0) =~= all);
    while i < n
        invariant
            i <= n <= keys.len(),
            all == keys.deep_view().take(n as int),
            trusted_key(all, key_id.deep_view()) == trusted_key(
                all.skip(i as int),
                key_id.deep_view(),
            ),
        decreases n - i,
    {
        assert(all.skip(i as int)[0] == keys@[i as int].deep_view());
        if keys[i].key_id.deep_eq(key_id) {
            return Some(&keys[i]);
        }
        assert(all.skip(i as int).drop_first() =~= all.skip(i as int + 1));
        i = i + 1;
    }
    None
}

/// How diagnostics spell a key identifier.
pub open spec fn key_id_debug(key_id: Seq<char>) -> Seq<char> {
    "KeyId("@ + str_debug(key_id) + ")"@
}

/// What a store is told about a key whose validity bound is not a timestamp.
pub open spec fn key_timestamp_detail(
    key_id: Seq<char>,
    label: Seq<char>,
    value: Seq<char>,
) -> Seq<char> {
    "key_id "@ + key_id_debug(key_id) + " has a malformed "@ + label + " timestamp: "@ + str_debug(
        value,
    )
}

/// What is wrong with key `i` of a store, if anything.
pub open spec fn key_problem(keys: Seq<TrustedKeyModel>, i: int) -> Option<TrustStoreErrorModel> {
    let key = keys[i];
    if trusted_key(keys.take(i), key.key_id) matches Some(existing) && existing != key {
        Some(TrustStoreErrorModel::DuplicateKeyId { key_id: key.key_id })
    } else if public_key(key.public_key_b64) is None {
        Some(TrustStoreErrorModel::MalformedKey { key_id: key.key_id })
    } else if key.not_before matches Some(v) && rfc3339(v) is None {
        Some(
            TrustStoreErrorModel::Malformed {
                detail: key_timestamp_detail(
                    key.key_id,
                    "not_before"@,
                    key.not_before.unwrap(),
                ),
            },
        )
    } else if key.not_after matches Some(v) && rfc3339(v) is None {
        Some(
            TrustStoreErrorModel::Malformed {
                detail: key_timestamp_detail(key.key_id, "not_after"@, key.not_after.unwrap()),
            },
        )
    } else {
        None
    }
}

/// The first problem among the keys from `i` on.
pub open spec fn store_problem(keys: Seq<TrustedKeyModel>, i: int) -> Option<TrustStoreErrorModel>
    decreases keys.len() - i,
{
    if i < 0 || i >= keys.len() {
        None
    } else {
        match key_problem(keys, i) {
            Some(e) => Some(e),
            None => store_problem(keys, i + 1),
        }
    }
}

fn timestamp_detail(key_id: &KeyId, label: &str, value: &String) -> (r: String)
    ensures
        r@ == key_timestamp_detail(key_id.deep_view(), label@, value@),
{
    let spelled = "KeyId(".to_owned().concat(quote_debug(key_id.0.as_str()).as_str()).concat(")");
    "key_id ".to_owned().concat(spelled.as_str()).concat(" has a malformed ").concat(label).concat(
        " timestamp: ",
    ).concat(quote_debug(value.as_str()).as_str())
}

fn check_key(keys: &Vec<TrustedKey>, i: usize) -> (r: Option<TrustStoreError>)
    requires
        i < keys.len(),
    ensures
        r.deep_view() == key_problem(keys.deep_view(), i as int),
{
    let key = &keys[i];
    assert(keys.deep_view()[i as int] == key.deep_view());
    if let Some(existing) = find_key(keys, i, &key.key_id) {
        if !existing.deep_eq(key) {
            return Some(TrustStoreError::DuplicateKeyId { key_id: key.key_id.deep_clone() });
        }
    }
    if decode_public_key(key.public_key_b64.as_str()).is_none() {
        return Some(TrustStoreError::MalformedKey { key_id: key.key_id.deep_clone() });
    }
    if let Some(v) = &key.not_before {
        if parse_rfc3339(v.as_str()).is_none() {
            return Some(
                TrustStoreError::Malformed {
                    detail: timestamp_detail(&key.key_id, "not_before", v),
                },
            );
        }
    }
    if let Some(v) = &key.not_after {
        if parse_rfc3339(v.as_str()).is_none() {
            return Some(
                TrustStoreError::Malformed {
                    detail: timestamp_detail(&key.key_id, "not_after", v),
                },
            );
        }
    }
    None
}

impl TrustedVerificationKeys {
    /// Accepts a parsed store whose keys are all usable. A store that does
    /// not parse, has no keys, names one key twice with differing material,
    /// or holds a malformed key or validity bound is refused up front.
    pub fn load(parsed: Result<TrustedVerificationKeys, String>) -> (r: Result<
        Self,
        TrustStoreError,
    >)
        ensures
            match (parsed, r) {
                (Err(detail), Err(e)) => e.deep_view() == (TrustStoreErrorModel::Malformed {
                    detail: detail@,
                }),
                (Err(_), Ok(_)) => false,
                (Ok(store), Ok(keys)) => keys.deep_view() == store.deep_view()
                    && store.keys@.len() > 0 && store_problem(store.keys.deep_view(), 0) is None,
                (Ok(store), Err(e)) => if store.keys@.len() == 0 {
                    e.deep_view() == TrustStoreErrorModel::Empty
                } else {
                    store_problem(store.keys.deep_view(), 0) == Some(e.deep_view())
                },
            },
    {
        match parsed {
            Err(detail) => Err(TrustStoreError::Malformed { detail }),
            Ok(store) => {
                if store.keys.is_empty() {
                    return Err(TrustStoreError::Empty);
                }
                let mut i: usize = 0;
                while i < store.keys.len()
                    invariant
                        i <= store.keys.len(),
                        parsed == Ok::<TrustedVerificationKeys, String>(store),
                        store.keys@.len() > 0,
                        store_problem(store.keys.deep_view(), 0) == store_problem(
                            store.keys.deep_view(),
                            i as int,
                        ),
                    decreases store.keys.len() - i,
                {
                    if let Some(e) = check_key(&store.keys, i) {
                        return Err(e);
                    }
                    i = i + 1;
                }
                Ok(store)
            },
        }
    }

    /// The first key with an identifier.
    pub fn get(&self, key_id: &KeyId) -> (r: Option<&TrustedKey>)
        ensures
            match r {
                Some(key) => trusted_key(self.keys.deep_view(), key_id.deep_view()) == Some(
                    key.deep_view(),
                ),
                None => trusted_key(self.keys.deep_view(), key_id.deep_view()) is None,
            },
    {
        assert(self.keys.deep_view().take(self.keys.len() as int) =~= self.keys.deep_view());
        find_key(&self.keys, self.keys.len(), key_id)
    }
}

/// What one signature of an envelope amounts to.
#[verifier::ext_equal]
pub enum Judgement {
    /// It names a key that is not trusted.
    Unknown,
    /// It names a trusted key, but cannot be checked.
    Unusable(EnvelopeVerificationErrorModel),
    /// It names a trusted, current key, and does not verify.
    Failed,
    /// It verifies.
    Verified,
}

/// Why a key is not usable at an instant, if it is not.
pub open spec fn window_problem(
    key: TrustedKeyModel,
    key_id: Seq<char>,
    now: Timestamp,
) -> Option<EnvelopeVerificationErrorModel> {
    if key.not_before matches Some(nb) && rfc3339(nb) is None {
        Some(
            EnvelopeVerificationErrorModel::MalformedKeyTimestamp {
                field: "trusted_key.not_before"@,
                value: key.not_before.unwrap(),
            },
        )
    } else if key.not_before matches Some(nb) && Timestamp::earlier(now, rfc3339(nb).unwrap()) {
        Some(
            EnvelopeVerificationErrorModel::KeyNotYetValid {
                key_id,
                not_before: key.not_before.unwrap(),
                now,
            },
        )
    } else if key.not_after matches Some(na) && rfc3339(na) is None {
        Some(
            EnvelopeVerificationErrorModel::MalformedKeyTimestamp {
                field: "trusted_key.not_after"@,
                value: key.not_after.unwrap(),
            },
        )
    } else if key.not_after matches Some(na) && Timestamp::earlier(rfc3339(na).unwrap(), now) {
        Some(
            EnvelopeVerificationErrorModel::KeyRetired {
                key_id,
                not_after: key.not_after.unwrap(),
                now,
            },
        )
    } else {
        None
    }
}

/// Judges one signature over a message.
pub open spec fn judgement(
    signature: BundleSignatureModel,
    message: Seq<u8>,
    trusted: Seq<TrustedKeyModel>,
    now: Timestamp,
) -> Judgement {
    match trusted_key(trusted, signature.key_id) {
        None => Judgement::Unknown,
        Some(key) => match window_problem(key, signature.key_id, now) {
            Some(e) => Judgement::Unusable(e),
            None => if signature.algorithm != known_tag(0) || key.algorithm != known_tag(0) {
                Judgement::Unusable(
                    EnvelopeVerificationErrorModel::UnsupportedAlgorithm {
                        key_id: signature.key_id,
                        algorithm: signature.algorithm,
                    },
                )
            } else {
                match (public_key(key.public_key_b64), signature_bytes(signature.signature_b64)) {
                    (Some(key_bytes), Some(bytes)) => if ed25519_signed(
                        key_bytes,
                        message,
                        bytes,
                    ) {
                        Judgement::Verified
                    } else {
                        Judgement::Failed
                    },
                    _ => Judgement::Unusable(
                        EnvelopeVerificationErrorModel::MalformedSignature {
                            key_id: signature.key_id,
                        },
                    ),
                }
            },
        },
    }
}

/// The judgement of a signature, as the loop over signatures meets it.
enum SignatureFinding {
    Unknown,
    Unusable(EnvelopeVerificationError),
    Failed,
    Verified,
}

impl DeepView for SignatureFinding {
    type V = Judgement;

    closed spec fn deep_view(&self) -> Judgement {
        match self {
            SignatureFinding::Unknown => Judgement::Unknown,
            SignatureFinding::Unusable(e) => Judgement::Unusable(e.deep_view()),
            SignatureFinding::Failed => Judgement::Failed,
            SignatureFinding::Verified => Judgement::Verified,
        }
    }
}

fn check_window(key: &TrustedKey, key_id: &KeyId, now: Timestamp) -> (r: Option<
    EnvelopeVerificationError,
>)
    ensures
        r.deep_view() == window_problem(key.deep_view(), key_id.deep_view(), now),
{
    if let Some(not_before) = &key.not_before {
        match parse_rfc3339(not_before.as_str()) {
            None => {
                return Some(
                    EnvelopeVerificationError::MalformedKeyTimestamp {
                        field: "trusted_key.not_before",
                        value: not_before.clone(),
                    },
                );
            },
            Some(nb) => {
                if now.is_before(&nb) {
                    return Some(
                        EnvelopeVerificationError::KeyNotYetValid {
                            key_id: key_id.deep_clone(),
                            not_before: not_before.clone(),
                            now,
                        },
                    );
                }
            },
        }
    }
    if let Some(not_after) = &key.not_after {
        match parse_rfc3339(not_after.as_str()) {
            None => {
                return Some(
                    EnvelopeVerificationError::MalformedKeyTimestamp {
                        field: "trusted_key.not_after",
                        value: not_after.clone(),
                    },
                );
            },
            Some(na) => {
                if na.is_before(&now) {
                    return Some(
                        EnvelopeVerificationError::KeyRetired {
                            key_id: key_id.deep_clone(),
                            not_after: not_after.clone(),
                            now,
                        },
                    );
                }
            },
        }
    }
    None
}

fn is_ed25519(algorithm: &SignatureAlgorithm) -> (r: bool)
    ensures
        r == (algorithm.deep_view() == known_tag(0)),
{
    match algorithm {
        SignatureAlgorithm::Ed25519 => true,
        SignatureAlgorithm::Unrecognized(_) => false,
    }
}

fn judge(
    signature: &BundleSignature,
    message: &Vec<u8>,
    trusted: &TrustedVerificationKeys,
    now: Timestamp,
) -> (r: SignatureFinding)
    ensures
        r.deep_view() == judgement(
            signature.deep_view(),
            message@,
            trusted.keys.deep_view(),
            now,
        ),
{
    match trusted.get(&signature.key_id) {
        None => SignatureFinding::Unknown,
        Some(key) => {
            if let Some(e) = check_window(key, &signature.key_id, now) {
                return SignatureFinding::Unusable(e);
            }
            if !is_ed25519(&signature.algorithm) || !is_ed25519(&key.algorithm) {
                return SignatureFinding::Unusable(
                    EnvelopeVerificationError::UnsupportedAlgorithm {
                        key_id: signature.key_id.deep_clone(),
                        algorithm: signature.algorithm.deep_clone(),
                    },
                );
            }
            match (
                decode_public_key(key.public_key_b64.as_str()),
                decode_signature(signature.signature_b64.as_str()),
            ) {
                (Some(key_bytes), Some(bytes)) => if signature_accepted(
                    key_bytes.as_slice(),
                    message.as_slice(),
                    bytes.as_slice(),
                ) {
                    SignatureFinding::Verified
                } else {
                    SignatureFinding::Failed
                },
                _ => SignatureFinding::Unusable(
                    EnvelopeVerificationError::MalformedSignature {
                        key_id: signature.key_id.deep_clone(),
                    },
                ),
            }
        },
    }
}

/// Everything the signatures of an envelope are judged against.
#[verifier::ext_equal]
pub struct Bench {
    pub message: Seq<u8>,
    pub trusted: Seq<TrustedKeyModel>,
    pub now: Timestamp,
}

pub open spec fn judged(bench: Bench, signature: BundleSignatureModel) -> Judgement {
    judgement(signature, bench.message, bench.trusted, bench.now)
}

/// The key of the first signature that verifies.
pub open spec fn verifying_key(bench: Bench, signatures: Seq<BundleSignatureModel>) -> Option<
    Seq<char>,
>
    decreases signatures.len(),
{
    if signatures.len() == 0 {
        None
    } else {
        match verifying_key(bench, signatures.drop_last()) {
            Some(key_id) => Some(key_id),
            None => if judged(bench, signatures.last()) is Verified {
                Some(signatures.last().key_id)
            } else {
                None
            },
        }
    }
}

/// The trusted, current keys whose signatures do not verify, in order.
pub open spec fn failed_keys(bench: Bench, signatures: Seq<BundleSignatureModel>) -> Seq<Seq<char>>
    decreases signatures.len(),
{
    if signatures.len() == 0 {
        Seq::empty()
    } else if judged(bench, signatures.last()) is Failed {
        failed_keys(bench, signatures.drop_last()).push(signatures.last().key_id)
    } else {
        failed_keys(bench, signatures.drop_last())
    }
}

/// Why the first trusted key that cannot be checked cannot be.
pub open spec fn first_unusable(bench: Bench, signatures: Seq<BundleSignatureModel>) -> Option<
    EnvelopeVerificationErrorModel,
>
    decreases signatures.len(),
{
    if signatures.len() == 0 {
        None
    } else {
        match first_unusable(bench, signatures.drop_last()) {
            Some(e) => Some(e),
            None => match judged(bench, signatures.last()) {
                Judgement::Unusable(e) => Some(e),
                _ => None,
            },
        }
    }
}

/// The key identifiers an envelope offers, in order.
pub open spec fn offered_keys(signatures: Seq<BundleSignatureModel>) -> Seq<Seq<char>> {
    Seq::new(signatures.len(), |i: int| signatures[i].key_id)
}

/// The key that authenticates an envelope, or why none does. Tampering under
/// a current key outweighs an unusable key, which outweighs unknown keys.
pub open spec fn signature_verdict(bench: Bench, signatures: Seq<BundleSignatureModel>) -> Result<
    Seq<char>,
    EnvelopeVerificationErrorModel,
> {
    match verifying_key(bench, signatures) {
        Some(key_id) => Ok(key_id),
        None => if failed_keys(bench, signatures).len() > 0 {
            Err(
                EnvelopeVerificationErrorModel::SignatureInvalid {
                    key_ids: failed_keys(bench, signatures),
                },
            )
        } else {
            match first_unusable(bench, signatures) {
                Some(e) => Err(e),
                None => Err(
                    EnvelopeVerificationErrorModel::UnknownKeyId {
                        offered: offered_keys(signatures),
                    },
                ),
            }
        },
    }
}

/// The authenticated payload of an envelope and the key that vouches for it,
/// or why there is none.
pub open spec fn envelope_verdict(
    payload_b64: Seq<char>,
    signatures: Seq<BundleSignatureModel>,
    domain: Seq<u8>,
    max_payload_bytes: usize,
    trusted: Seq<TrustedKeyModel>,
    now: Timestamp,
) -> Result<(Seq<u8>, Seq<char>), EnvelopeVerificationErrorModel> {
    if signatures.len() == 0 {
        Err(EnvelopeVerificationErrorModel::NoSignatures)
    } else if signatures.len() > MAX_SIGNATURES {
        Err(
            EnvelopeVerificationErrorModel::TooManySignatures {
                found: signatures.len() as usize,
                max: MAX_SIGNATURES,
            },
        )
    } else {
        match base64_decoded(payload_b64) {
            Err(detail) => Err(EnvelopeVerificationErrorModel::MalformedPayloadEncoding { detail }),
            Ok(payload) => if payload.len() > max_payload_bytes {
                Err(
                    EnvelopeVerificationErrorModel::PayloadTooLarge {
                        found: payload.len() as usize,
                        max: max_payload_bytes,
                    },
                )
            } else {
                match signature_verdict(
                    Bench { message: domain + payload, trusted, now },
                    signatures,
                ) {
                    Ok(key_id) => Ok((payload, key_id)),
                    Err(e) => Err(e),
                }
            },
        }
    }
}

/// The authenticated payload bytes, not yet parsed, and the key that verified
/// them.
#[derive(Debug, Clone, PartialEq, Eq)]
pub struct VerifiedEnvelope {
    pub payload_bytes: Vec<u8>,
    pub verified_by: KeyId,
}

/// Authenticates an envelope under a signing domain. The first signature that
/// verifies is enough, and a signature that cannot be checked never keeps a
/// later one from being looked at.
pub fn verify_signed_envelope(
    payload_b64: &str,
    signatures: &Vec<BundleSignature>,
    domain: &[u8],
    max_payload_bytes: usize,
    trusted: &TrustedVerificationKeys,
    now: Timestamp,
) -> (r: Result<VerifiedEnvelope, EnvelopeVerificationError>)
    ensures
        match r {
            Ok(v) => envelope_verdict(
                payload_b64@,
                signatures.deep_view(),
                domain@,
                max_payload_bytes,
                trusted.keys.deep_view(),
                now,
            ) == Ok::<(Seq<u8>, Seq<char>), EnvelopeVerificationErrorModel>(
                (v.payload_bytes@, v.verified_by.deep_view()),
            ),
            Err(e) => envelope_verdict(
                payload_b64@,
                signatures.deep_view(),
                domain@,
                max_payload_bytes,
                trusted.keys.deep_view(),
                now,
            ) == Err::<(Seq<u8>, Seq<char>), EnvelopeVerificationErrorModel>(e.deep_view()),
        },
{
    if signatures.is_empty() {
        return Err(EnvelopeVerificationError::NoSignatures);
    }
    if signatures.len() > MAX_SIGNATURES {
        return Err(
            EnvelopeVerificationError::TooManySignatures {
                found: signatures.len(),
                max: MAX_SIGNATURES,
            },
        );
    }
    let payload_bytes = match decode_base64(payload_b64) {
        Ok(bytes) => bytes,
        Err(detail) => {
            return Err(EnvelopeVerificationError::MalformedPayloadEncoding { detail });
        },
    };
    if payload_bytes.len() > max_payload_bytes {
        return Err(
            EnvelopeVerificationError::PayloadTooLarge {
                found: payload_bytes.len(),
                max: max_payload_bytes,
            },
        );
    }
    let message = joined_bytes(domain, payload_bytes.as_slice());
    let ghost all = signatures.deep_view();
    let ghost bench = Bench {
        message: domain@ + payload_bytes@,
        trusted: trusted.keys.deep_view(),
        now,
    };
    let mut offered: Vec<KeyId> = Vec::new();
    let mut failed: Vec<KeyId> = Vec::new();
    let mut first_skip: Option<EnvelopeVerificationError> = None;
    let mut i: usize = 0;
    assert(failed.deep_view() =~= Seq::<Seq<char>>::empty());
    while i < signatures.len()
        invariant
            i <= signatures.len(),
            all == signatures.deep_view(),
            message@ == bench.message,
            bench.trusted == trusted.keys.deep_view(),
            bench.now == now,
            bench.message == domain@ + payload_bytes@,
            all.len() > 0,
            all.len() <= MAX_SIGNATURES,
            payload_bytes@.len() <= max_payload_bytes,
            base64_decoded(payload_b64@) == Ok::<Seq<u8>, Seq<char>>(payload_bytes@),
            verifying_key(bench, all.take(i as int)) is None,
            failed.deep_view() == failed_keys(bench, all.take(i as int)),
            first_skip.deep_view() == first_unusable(bench, all.take(i as int)),
            offered.len() == i,
            forall|j: int| 0 <= j < i ==> (#[trigger] offered@[j]).deep_view() == all[j].key_id,
        decreases signatures.len() - i,
    {
        let signature = &signatures[i];
        let ghost t = all.take(i as int + 1);
        proof {
            assert(t.drop_last() =~= all.take(i as int));
            assert(t.last() == signature.deep_view());
        }
        offered.push(signature.key_id.deep_clone());
        match judge(signature, &message, trusted, now) {
            SignatureFinding::Unknown => {},
            SignatureFinding::Unusable(e) => {
                if first_skip.is_none() {
                    first_skip = Some(e);
                }
            },
            SignatureFinding::Failed => {
                let key_id = signature.key_id.deep_clone();
                let ghost before = failed;
                failed.push(key_id);
                proof {
                    lemma_deep_push(before, failed, key_id);
                }
            },
            SignatureFinding::Verified => {
                proof {
                    assert(verifying_key(bench, t) == Some(signature.deep_view().key_id));
                    lemma_verifying_key_stays(bench, all, i as int + 1);
                }
                return Ok(
                    VerifiedEnvelope { payload_bytes, verified_by: signature.key_id.deep_clone() },
                );
            },
        }
        i = i + 1;
    }
    assert(all.take(all.len() as int) =~= all);
    if !failed.is_empty() {
        return Err(EnvelopeVerificationError::SignatureInvalid { key_ids: failed });
    }
    match first_skip {
        Some(e) => Err(e),
        None => {
            assert(offered.deep_view() =~= offered_keys(all));
            Err(EnvelopeVerificationError::UnknownKeyId { offered })
        },
    }
}

fn joined_bytes(a: &[u8], b: &[u8]) -> (r: Vec<u8>)
    ensures
        r@ == a@ + b@,
{
    let mut out: Vec<u8> = Vec::new();
    out.extend_from_slice(a);
    assert(out@ =~= a@);
    out.extend_from_slice(b);
    assert(out@ =~= a@ + b@);
    out
}

proof fn lemma_verifying_key_stays(
    bench: Bench,
    signatures: Seq<BundleSignatureModel>,
    n: int,
)
    requires
        0 <= n <= signatures.len(),
        verifying_key(bench, signatures.take(n)) is Some,
    ensures
        verifying_key(bench, signatures) == verifying_key(bench, signatures.take(n)),
    decreases signatures.len() - n,
{
    if n < signatures.len() {
        assert(signatures.take(n + 1).drop_last() =~= signatures.take(n));
        lemma_verifying_key_stays(bench, signatures, n + 1);
    } else {
        assert(signatures.take(n) =~= signatures);
    }
}

/// Whether no trusted key is limited in time.
pub open spec fn no_windows(trusted: Seq<TrustedKeyModel>) -> bool {
    forall|i: int|
        0 <= i < trusted.len() ==> (#[trigger] trusted[i]).not_before is None
            && trusted[i].not_after is None
}

proof fn lemma_judged_alike(
    trusted: Seq<TrustedKeyModel>,
    signature: BundleSignatureModel,
    message: Seq<u8>,
    a: Timestamp,
    b: Timestamp,
)
    requires
        no_windows(trusted),
    ensures
        judgement(signature, message, trusted, a) == judgement(signature, message, trusted, b),
{
    lemma_trusted_key_listed(trusted, signature.key_id);
}

proof fn lemma_trusted_key_listed(keys: Seq<TrustedKeyModel>, key_id: Seq<char>)
    ensures
        trusted_key(keys, key_id) matches Some(key) ==> exists|i: int|
            0 <= i < keys.len() && #[trigger] keys[i] == key,
    decreases keys.len(),
{
    if keys.len() > 0 {
        let rest = keys.drop_first();
        lemma_trusted_key_listed(rest, key_id);
        match trusted_key(rest, key_id) {
            Some(key) => {
                let i = choose|i: int| 0 <= i < rest.len() && #[trigger] rest[i] == key;
                assert(keys[i + 1] == key);
            },
            None => {},
        }
        if trusted_key(keys, key_id) == Some(keys[0]) {
            assert(keys[0] == trusted_key(keys, key_id).unwrap());
        }
    }
}

proof fn lemma_signatures_alike(
    message: Seq<u8>,
    trusted: Seq<TrustedKeyModel>,
    a: Timestamp,
    b: Timestamp,
    signatures: Seq<BundleSignatureModel>,
)
    requires
        no_windows(trusted),
    ensures
        ({
            let x = Bench { message, trusted, now: a };
            let y = Bench { message, trusted, now: b };
            &&& verifying_key(x, signatures) == verifying_key(y, signatures)
            &&& failed_keys(x, signatures) == failed_keys(y, signatures)
            &&& first_unusable(x, signatures) == first_unusable(y, signatures)
        }),
    decreases signatures.len(),
{
    if signatures.len() > 0 {
        lemma_signatures_alike(message, trusted, a, b, signatures.drop_last());
        lemma_judged_alike(trusted, signatures.last(), message, a, b);
    }
}

/// Where no trusted key is limited in time, it makes no difference when an
/// envelope is authenticated.
pub proof fn law_unlimited_keys_authenticate_at_any_time(
    payload_b64: Seq<char>,
    signatures: Seq<BundleSignatureModel>,
    domain: Seq<u8>,
    max_payload_bytes: usize,
    trusted: Seq<TrustedKeyModel>,
    a: Timestamp,
    b: Timestamp,
)
    requires
        no_windows(trusted),
    ensures
        envelope_verdict(payload_b64, signatures, domain, max_payload_bytes, trusted, a)
            == envelope_verdict(payload_b64, signatures, domain, max_payload_bytes, trusted, b),
{
    match base64_decoded(payload_b64) {
        Ok(payload) => {
            lemma_signatures_alike(domain + payload, trusted, a, b, signatures);
        },
        Err(_) => {},
    }
}

/// Key rotation works: one signature that verifies authenticates an envelope,
/// whatever the other signatures are and wherever it stands among them.
pub proof fn law_one_valid_signature_suffices(
    bench: Bench,
    signatures: Seq<BundleSignatureModel>,
    i: int,
)
    requires
        0 <= i < signatures.len(),
        judged(bench, signatures[i]) is Verified,
    ensures
        signature_verdict(bench, signatures) is Ok,
    decreases signatures.len(),
{
    lemma_some_key_verifies(bench, signatures, i);
}

proof fn lemma_some_key_verifies(bench: Bench, signatures: Seq<BundleSignatureModel>, i: int)
    requires
        0 <= i < signatures.len(),
        judged(bench, signatures[i]) is Verified,
    ensures
        verifying_key(bench, signatures) is Some,
    decreases signatures.len(),
{
    if i < signatures.len() - 1 {
        assert(signatures.drop_last()[i] == signatures[i]);
        lemma_some_key_verifies(bench, signatures.drop_last(), i);
    }
}

proof fn lemma_trusted_key_is_listed(keys: Seq<TrustedKeyModel>, key_id: Seq<char>)
    ensures
        trusted_key(keys, key_id) matches Some(key) ==> keys.contains(key) && key.key_id == key_id,
    decreases keys.len(),
{
    if keys.len() > 0 {
        if keys[0].key_id == key_id {
            assert(keys.contains(keys[0]));
        } else {
            let rest = keys.drop_first();
            lemma_trusted_key_is_listed(rest, key_id);
            if let Some(key) = trusted_key(rest, key_id) {
                let i = choose|i: int| 0 <= i < rest.len() && rest[i] == key;
                assert(keys[i + 1] == key);
            }
        }
    }
}

/// A signature verifies only for a trusted key of its name, in its validity
/// window, of the one algorithm known here, over the message as it stands. A
/// value that is not recognised is never taken for a match.
pub proof fn law_verified_signatures_are_genuine(bench: Bench, signature: BundleSignatureModel)
    ensures
        judged(bench, signature) is Verified ==> signature.algorithm == known_tag(0) && exists|
            key: TrustedKeyModel,
        | #[trigger]
            bench.trusted.contains(key) && key.key_id == signature.key_id && key.algorithm
                == known_tag(0) && window_problem(key, signature.key_id, bench.now) is None
                && public_key(key.public_key_b64) is Some && signature_bytes(
                signature.signature_b64,
            ) is Some && ed25519_signed(
                public_key(key.public_key_b64).unwrap(),
                bench.message,
                signature_bytes(signature.signature_b64).unwrap(),
            ),
{
    lemma_trusted_key_is_listed(bench.trusted, signature.key_id);
    if judged(bench, signature) is Verified {
        let key = trusted_key(bench.trusted, signature.key_id).unwrap();
        assert(bench.trusted.contains(key));
    }
}

/// An envelope is authenticated only by a signature of the named, trusted key
/// on the domain and the payload, made while the key is in its window.
pub proof fn law_authentication_needs_a_trusted_signature(
    bench: Bench,
    signatures: Seq<BundleSignatureModel>,
)
    ensures
        signature_verdict(bench, signatures) matches Ok(key_id) ==> exists|i: int|
            0 <= i < signatures.len() && (#[trigger] signatures[i]).key_id == key_id && judged(
                bench,
                signatures[i],
            ) is Verified,
    decreases signatures.len(),
{
    if verifying_key(bench, signatures) is Some {
        let front = signatures.drop_last();
        if verifying_key(bench, front) is Some {
            law_authentication_needs_a_trusted_signature(bench, front);
            let key_id = verifying_key(bench, front).unwrap();
            let i = choose|i: int|
                0 <= i < front.len() && (#[trigger] front[i]).key_id == key_id && judged(
                    bench,
                    front[i],
                ) is Verified;
            assert(signatures[i] == front[i]);
        } else {
            assert(signatures[signatures.len() - 1] == signatures.last());
        }
    }
}

/// A bundle whose envelope has been authenticated; its payload bytes may now
/// be parsed.
#[derive(Debug, Clone, PartialEq, Eq)]
pub struct AuthenticatedBundle {
    bundle_schema_version: u32,
    payload_bytes: Vec<u8>,
    verified_by: KeyId,
}

/// The mathematical value of an [`AuthenticatedBundle`].
#[verifier::ext_equal]
pub struct AuthenticatedBundleModel {
    pub bundle_schema_version: u32,
    pub payload_bytes: Seq<u8>,
    pub verified_by: Seq<char>,
}

impl DeepView for AuthenticatedBundle {
    type V = AuthenticatedBundleModel;

    closed spec fn deep_view(&self) -> AuthenticatedBundleModel {
        AuthenticatedBundleModel {
            bundle_schema_version: self.bundle_schema_version,
            payload_bytes: self.payload_bytes@,
            verified_by: self.verified_by.deep_view(),
        }
    }
}

impl AuthenticatedBundle {
    /// The bytes the signature covers, without the domain.
    pub fn payload_bytes(&self) -> (r: &Vec<u8>)
        ensures
            r@ == self.deep_view().payload_bytes,
    {
        &self.payload_bytes
    }

    pub fn verified_by(&self) -> (r: &KeyId)
        ensures
            r.deep_view() == self.deep_view().verified_by,
    {
        &self.verified_by
    }
}

/// Whether a bundle schema version is one this library reads.
pub open spec fn bundle_schema_supported(version: u32) -> bool {
    SUPPORTED_BUNDLE_SCHEMA_VERSIONS@.contains(version)
}

/// The outcome of authenticating a parsed envelope.
pub open spec fn bundle_authentication(
    envelope: SignedPolicyBundleModel,
    trusted: Seq<TrustedKeyModel>,
    now: Timestamp,
) -> Result<AuthenticatedBundleModel, BundleRejectionModel> {
    if !bundle_schema_supported(envelope.bundle_schema_version) {
        Err(
            BundleRejectionModel::UnsupportedBundleSchemaVersion {
                found: envelope.bundle_schema_version,
                supported: SUPPORTED_BUNDLE_SCHEMA_VERSIONS@,
            },
        )
    } else {
        match envelope_verdict(
            envelope.payload_b64,
            envelope.signatures,
            BUNDLE_SIGNING_DOMAIN@,
            MAX_PAYLOAD_BYTES,
            trusted,
            now,
        ) {
            Ok((payload_bytes, verified_by)) => Ok(
                AuthenticatedBundleModel {
                    bundle_schema_version: envelope.bundle_schema_version,
                    payload_bytes,
                    verified_by,
                },
            ),
            Err(e) => Err(bundle_rejection(e)),
        }
    }
}

/// First step of verification: authenticates an envelope, given what its
/// bytes parsed to. Checks the schema version, then the signatures.
pub fn authenticate_bundle(
    envelope: Result<SignedPolicyBundle, String>,
    trusted: &TrustedVerificationKeys,
    now: Timestamp,
) -> (r: Result<AuthenticatedBundle, BundleRejection>)
    ensures
        match (envelope, r) {
            (Err(detail), Err(e)) => e.deep_view() == (BundleRejectionModel::MalformedEnvelope {
                detail: detail@,
            }),
            (Err(_), Ok(_)) => false,
            (Ok(envelope), Ok(bundle)) => bundle_authentication(
                envelope.deep_view(),
                trusted.keys.deep_view(),
                now,
            ) == Ok::<AuthenticatedBundleModel, BundleRejectionModel>(bundle.deep_view()),
            (Ok(envelope), Err(e)) => bundle_authentication(
                envelope.deep_view(),
                trusted.keys.deep_view(),
                now,
            ) == Err::<AuthenticatedBundleModel, BundleRejectionModel>(e.deep_view()),
        },
{
    let envelope = match envelope {
        Ok(e) => e,
        Err(detail) => {
            return Err(BundleRejection::MalformedEnvelope { detail });
        },
    };
    let supported = SUPPORTED_BUNDLE_SCHEMA_VERSIONS;
    if envelope.bundle_schema_version != supported[0] {
        let mut versions: Vec<u32> = Vec::new();
        versions.push(supported[0]);
        assert(versions.deep_view() =~= SUPPORTED_BUNDLE_SCHEMA_VERSIONS@);
        return Err(
            BundleRejection::UnsupportedBundleSchemaVersion {
                found: envelope.bundle_schema_version,
                supported: versions,
            },
        );
    }
    assert(SUPPORTED_BUNDLE_SCHEMA_VERSIONS@[0] == envelope.bundle_schema_version);
    let domain = BUNDLE_SIGNING_DOMAIN;
    match verify_signed_envelope(
        envelope.payload_b64.as_str(),
        &envelope.signatures,
        domain.as_slice(),
        MAX_PAYLOAD_BYTES,
        trusted,
        now,
    ) {
        Ok(v) => Ok(
            AuthenticatedBundle {
                bundle_schema_version: envelope.bundle_schema_version,
                payload_bytes: v.payload_bytes,
                verified_by: v.verified_by,
            },
        ),
        Err(e) => Err(BundleRejection::from(e)),
    }
}

/// An authenticated bundle whose content has passed every check. Each of its
/// bindings references its revision.
#[derive(Debug, PartialEq, Eq)]
pub struct VerifiedPolicyBundle {
    payload: BundlePayload,
    verified_by: KeyId,
    payload_digest: PayloadDigest,
}

/// The mathematical value of a [`VerifiedPolicyBundle`].
#[verifier::ext_equal]
pub struct VerifiedPolicyBundleModel {
    pub payload: BundlePayloadModel,
    pub verified_by: Seq<char>,
    pub payload_digest: Seq<char>,
}

impl DeepView for VerifiedPolicyBundle {
    type V = VerifiedPolicyBundleModel;

    closed spec fn deep_view(&self) -> VerifiedPolicyBundleModel {
        VerifiedPolicyBundleModel {
            payload: self.payload.deep_view(),
            verified_by: self.verified_by.deep_view(),
            payload_digest: self.payload_digest.deep_view(),
        }
    }
}

impl Deep for VerifiedPolicyBundle {
    fn deep_clone(&self) -> (r: Self) {
        proof {
            use_type_invariant(self);
        }
        VerifiedPolicyBundle {
            payload: self.payload.deep_clone(),
            verified_by: self.verified_by.deep_clone(),
            payload_digest: self.payload_digest.deep_clone(),
        }
    }

    fn deep_eq(&self, other: &Self) -> (r: bool) {
        self.payload.deep_eq(&other.payload) && self.verified_by.deep_eq(&other.verified_by)
            && self.payload_digest.deep_eq(&other.payload_digest)
    }
}

impl Clone for VerifiedPolicyBundle {
    fn clone(&self) -> (r: Self)
        ensures
            r.deep_view() == self.deep_view(),
    {
        self.deep_clone()
    }
}

/// Whether every binding of a payload references its revision.
pub open spec fn bindings_match(payload: BundlePayloadModel) -> bool {
    forall|i: int|
        0 <= i < payload.bindings.len() ==> (#[trigger] payload.bindings[i]).revision_ref.digest
            == payload.revision.digest
}

/// What the bindings of a verified bundle join its revision to: every bound
/// revision, or the first refusal.
pub open spec fn joined_bindings(
    bindings: Seq<PolicyBindingModel>,
    revision: PublishedPolicyRevisionModel,
) -> Result<Seq<BoundRevisionModel>, Seq<super::diagnostics::PolicyDiagnosticModel>>
    decreases bindings.len(),
{
    if bindings.len() == 0 {
        Ok(Seq::empty())
    } else {
        match joined_bindings(bindings.drop_last(), revision) {
            Ok(bound) => match join_refusal(bindings.last(), revision) {
                None => Ok(
                    bound.push(BoundRevisionModel { binding: bindings.last(), revision }),
                ),
                Some(d) => Err(seq![d]),
            },
            Err(e) => Err(e),
        }
    }
}

impl VerifiedPolicyBundle {
    #[verifier::type_invariant]
    spec fn wf(&self) -> bool {
        bindings_match(self.payload.deep_view())
    }

    pub fn payload(&self) -> (r: &BundlePayload)
        ensures
            r.deep_view() == self.deep_view().payload,
            bindings_match(r.deep_view()),
    {
        proof {
            use_type_invariant(self);
        }
        &self.payload
    }

    pub fn revision(&self) -> (r: &PublishedPolicyRevision)
        ensures
            r.deep_view() == self.deep_view().payload.revision,
    {
        &self.payload.revision
    }

    pub fn bindings(&self) -> (r: &Vec<PolicyBinding>)
        ensures
            r.deep_view() == self.deep_view().payload.bindings,
    {
        &self.payload.bindings
    }

    pub fn verified_by(&self) -> (r: &KeyId)
        ensures
            r.deep_view() == self.deep_view().verified_by,
    {
        &self.verified_by
    }

    pub fn payload_digest(&self) -> (r: &PayloadDigest)
        ensures
            r.deep_view() == self.deep_view().payload_digest,
    {
        &self.payload_digest
    }

    /// Joins every binding with the revision. The digests are known to match,
    /// so only a pin at the most specific level can be refused here.
    pub fn into_bound_revisions(self) -> (r: Result<Vec<BoundRevision>, PolicyValidationReport>)
        ensures
            match r {
                Ok(bound) => joined_bindings(
                    self.deep_view().payload.bindings,
                    self.deep_view().payload.revision,
                ) == Ok::<
                    Seq<BoundRevisionModel>,
                    Seq<super::diagnostics::PolicyDiagnosticModel>,
                >(bound.deep_view()),
                Err(report) => joined_bindings(
                    self.deep_view().payload.bindings,
                    self.deep_view().payload.revision,
                ) == Err::<
                    Seq<BoundRevisionModel>,
                    Seq<super::diagnostics::PolicyDiagnosticModel>,
                >(report.diagnostics.deep_view()),
            },
    {
        let ghost revision = self.deep_view().payload.revision;
        let ghost all = self.deep_view().payload.bindings;
        let VerifiedPolicyBundle { payload, .. } = self;
        let bindings = payload.bindings;
        let mut out: Vec<BoundRevision> = Vec::new();
        let mut i: usize = 0;
        assert(out.deep_view() =~= Seq::<BoundRevisionModel>::empty());
        while i < bindings.len()
            invariant
                i <= bindings.len(),
                all == bindings.deep_view(),
                all == self.deep_view().payload.bindings,
                revision == self.deep_view().payload.revision,
                revision == payload.revision.deep_view(),
                joined_bindings(all.take(i as int), revision) == Ok::<
                    Seq<BoundRevisionModel>,
                    Seq<super::diagnostics::PolicyDiagnosticModel>,
                >(out.deep_view()),
            decreases bindings.len() - i,
        {
            let ghost t = all.take(i as int + 1);
            proof {
                assert(t.drop_last() =~= all.take(i as int));
                assert(t.last() == bindings@[i as int].deep_view());
            }
            match BoundRevision::new(bindings[i].deep_clone(), payload.revision.deep_clone()) {
                Ok(bound) => {
                    let ghost before = out;
                    out.push(bound);
                    proof {
                        lemma_deep_push(before, out, bound);
                    }
                },
                Err(report) => {
                    proof {
                        lemma_refused_join_stays(all, revision, i as int + 1);
                    }
                    return Err(report);
                },
            }
            i = i + 1;
        }
        assert(all.take(all.len() as int) =~= all);
        Ok(out)
    }
}

proof fn lemma_refused_join_stays(
    bindings: Seq<PolicyBindingModel>,
    revision: PublishedPolicyRevisionModel,
    n: int,
)
    requires
        0 <= n <= bindings.len(),
        joined_bindings(bindings.take(n), revision) is Err,
    ensures
        joined_bindings(bindings, revision) == joined_bindings(bindings.take(n), revision),
    decreases bindings.len() - n,
{
    if n < bindings.len() {
        assert(bindings.take(n + 1).drop_last() =~= bindings.take(n));
        lemma_refused_join_stays(bindings, revision, n + 1);
    } else {
        assert(bindings.take(n) =~= bindings);
    }
}

/// The first binding that references another digest than the revision's.
pub open spec fn first_mismatch(
    bindings: Seq<PolicyBindingModel>,
    digest: Seq<char>,
) -> Option<PolicyBindingModel>
    decreases bindings.len(),
{
    if bindings.len() == 0 {
        None
    } else if bindings[0].revision_ref.digest != digest {
        Some(bindings[0])
    } else {
        first_mismatch(bindings.drop_first(), digest)
    }
}

/// Whether `now` lies before `not_before` by more than the clock skew
/// tolerance.
pub open spec fn before_window(now: Timestamp, not_before: Timestamp) -> bool {
    let start = moved_back(not_before.parts(), CLOCK_SKEW_TOLERANCE_SECONDS as int);
    now.parts().0 < start.0 || (now.parts().0 == start.0 && now.parts().1 < start.1)
}

/// Why the content of an authenticated bundle is rejected, if it is.
pub open spec fn payload_problem(
    bundle: AuthenticatedBundleModel,
    payload: BundlePayloadModel,
    now: Timestamp,
) -> Option<BundleRejectionModel> {
    if payload.bundle_schema_version != bundle.bundle_schema_version {
        Some(
            BundleRejectionModel::SchemaVersionMismatch {
                envelope: bundle.bundle_schema_version,
                payload: payload.bundle_schema_version,
            },
        )
    } else if rfc3339(payload.not_before) is None {
        Some(
            BundleRejectionModel::MalformedTimestamp {
                field: "not_before"@,
                value: payload.not_before,
            },
        )
    } else if rfc3339(payload.expires_at) is None {
        Some(
            BundleRejectionModel::MalformedTimestamp {
                field: "expires_at"@,
                value: payload.expires_at,
            },
        )
    } else if rfc3339(payload.issued_at) is None {
        Some(
            BundleRejectionModel::MalformedTimestamp {
                field: "issued_at"@,
                value: payload.issued_at,
            },
        )
    } else if before_window(now, rfc3339(payload.not_before).unwrap()) {
        Some(
            BundleRejectionModel::BundleNotYetValid {
                not_before: payload.not_before,
                now,
                tolerance_seconds: CLOCK_SKEW_TOLERANCE_SECONDS,
            },
        )
    } else if Timestamp::earlier(rfc3339(payload.expires_at).unwrap(), now) {
        Some(BundleRejectionModel::BundleExpired { expires_at: payload.expires_at, now })
    } else {
        match first_mismatch(payload.bindings, payload.revision.digest) {
            Some(binding) => Some(
                BundleRejectionModel::BindingRevisionMismatch {
                    binding_id: binding.binding_id,
                    expected: binding.revision_ref.digest,
                    actual: payload.revision.digest,
                },
            ),
            None => None,
        }
    }
}

/// The outcome of checking what an authenticated payload parsed to.
pub open spec fn bundle_verification(
    bundle: AuthenticatedBundleModel,
    payload: BundlePayloadModel,
    now: Timestamp,
) -> Result<VerifiedPolicyBundleModel, BundleRejectionModel> {
    match payload_problem(bundle, payload, now) {
        Some(e) => Err(e),
        None => Ok(
            VerifiedPolicyBundleModel {
                payload,
                verified_by: bundle.verified_by,
                payload_digest: digest_text(bundle.payload_bytes),
            },
        ),
    }
}

proof fn lemma_no_mismatch(bindings: Seq<PolicyBindingModel>, digest: Seq<char>)
    requires
        first_mismatch(bindings, digest) is None,
    ensures
        forall|i: int|
            0 <= i < bindings.len() ==> (#[trigger] bindings[i]).revision_ref.digest == digest,
    decreases bindings.len(),
{
    if bindings.len() > 0 {
        let rest = bindings.drop_first();
        lemma_no_mismatch(rest, digest);
        assert forall|i: int| 0 <= i < bindings.len() implies (
        #[trigger] bindings[i]).revision_ref.digest == digest by {
            if i > 0 {
                assert(rest[i - 1] == bindings[i]);
            }
        }
    }
}

fn find_mismatch<'a>(bindings: &'a Vec<PolicyBinding>, digest: &str) -> (r: Option<
    &'a PolicyBinding,
>)
    ensures
        match r {
            Some(b) => first_mismatch(bindings.deep_view(), digest@) == Some(b.deep_view()),
            None => first_mismatch(bindings.deep_view(), digest@) is None,
        },
{
    let ghost all = bindings.deep_view();
    let mut i: usize = 0;
    assert(all.skip(0) =~= all);
    while i < bindings.len()
        invariant
            i <= bindings.len(),
            all == bindings.deep_view(),
            first_mismatch(all, digest@) == first_mismatch(all.skip(i as int), digest@),
        decreases bindings.len() - i,
    {
        assert(all.skip(i as int)[0] == bindings@[i as int].deep_view());
        if !crate::text::str_eq(bindings[i].revision_ref.digest.as_str(), digest) {
            return Some(&bindings[i]);
        }
        assert(all.skip(i as int).drop_first() =~= all.skip(i as int + 1));
        i = i + 1;
    }
    None
}

/// Second step of verification: checks the content of an authenticated
/// bundle, given what its payload bytes parsed to. The versions of envelope
/// and payload agree; the timestamps parse; `now` lies in the window, with
/// grace at its start and none at its end; every binding references the
/// revision.
pub fn verify_bundle(
    bundle: AuthenticatedBundle,
    payload: Result<BundlePayload, String>,
    now: Timestamp,
) -> (r: Result<VerifiedPolicyBundle, BundleRejection>)
    ensures
        match (payload, r) {
            (Err(detail), Err(e)) => e.deep_view() == (BundleRejectionModel::MalformedPayload {
                detail: detail@,
            }),
            (Err(_), Ok(_)) => false,
            (Ok(payload), Ok(verified)) => bundle_verification(
                bundle.deep_view(),
                payload.deep_view(),
                now,
            ) == Ok::<VerifiedPolicyBundleModel, BundleRejectionModel>(verified.deep_view()),
            (Ok(payload), Err(e)) => bundle_verification(
                bundle.deep_view(),
                payload.deep_view(),
                now,
            ) == Err::<VerifiedPolicyBundleModel, BundleRejectionModel>(e.deep_view()),
        },
{
    let payload = match payload {
        Ok(p) => p,
        Err(detail) => {
            return Err(BundleRejection::MalformedPayload { detail });
        },
    };
    if payload.bundle_schema_version != bundle.bundle_schema_version {
        return Err(
            BundleRejection::SchemaVersionMismatch {
                envelope: bundle.bundle_schema_version,
                payload: payload.bundle_schema_version,
            },
        );
    }
    let not_before = match parse_rfc3339(payload.not_before.as_str()) {
        Some(t) => t,
        None => {
            return Err(
                BundleRejection::MalformedTimestamp {
                    field: "not_before",
                    value: payload.not_before,
                },
            );
        },
    };
    let expires_at = match parse_rfc3339(payload.expires_at.as_str()) {
        Some(t) => t,
        None => {
            return Err(
                BundleRejection::MalformedTimestamp {
                    field: "expires_at",
                    value: payload.expires_at,
                },
            );
        },
    };
    if parse_rfc3339(payload.issued_at.as_str()).is_none() {
        return Err(
            BundleRejection::MalformedTimestamp { field: "issued_at", value: payload.issued_at },
        );
    }
    if now.is_before_with_grace(&not_before, CLOCK_SKEW_TOLERANCE_SECONDS) {
        return Err(
            BundleRejection::BundleNotYetValid {
                not_before: payload.not_before,
                now,
                tolerance_seconds: CLOCK_SKEW_TOLERANCE_SECONDS,
            },
        );
    }
    if expires_at.is_before(&now) {
        return Err(BundleRejection::BundleExpired { expires_at: payload.expires_at, now });
    }
    if let Some(binding) = find_mismatch(&payload.bindings, payload.revision.digest().as_str()) {
        return Err(
            BundleRejection::BindingRevisionMismatch {
                binding_id: binding.binding_id,
                expected: binding.revision_ref.digest.as_str().to_owned(),
                actual: payload.revision.digest().as_str().to_owned(),
            },
        );
    }
    proof {
        lemma_no_mismatch(payload.deep_view().bindings, payload.deep_view().revision.digest);
    }
    let payload_digest = digest_payload_bytes(bundle.payload_bytes.as_slice());
    Ok(VerifiedPolicyBundle { payload, verified_by: bundle.verified_by, payload_digest })
}

/// The bindings of a verified bundle can only fail to join its revision for a
/// pin at the most specific level: their digests match.
pub proof fn law_verified_bindings_fail_only_on_local_pins(
    bindings: Seq<PolicyBindingModel>,
    revision: PublishedPolicyRevisionModel,
)
    requires
        forall|i: int|
            0 <= i < bindings.len() ==> (#[trigger] bindings[i]).revision_ref.digest
                == revision.digest,
    ensures
        joined_bindings(bindings, revision) matches Err(diagnostics) ==> diagnostics.len() == 1
            && diagnostics[0].code == super::diagnostics::DiagnosticCode::PinAtLocalUserLayer,
        joined_bindings(bindings, revision) matches Ok(bound) ==> bound.len() == bindings.len(),
    decreases bindings.len(),
{
    if bindings.len() > 0 {
        let front = bindings.drop_last();
        assert forall|i: int| 0 <= i < front.len() implies (
        #[trigger] front[i]).revision_ref.digest == revision.digest by {
            assert(front[i] == bindings[i]);
        }
        law_verified_bindings_fail_only_on_local_pins(front, revision);
        assert(bindings.last() == bindings[bindings.len() - 1]);
    }
}

} // verus!

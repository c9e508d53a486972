//! Signed policy revocation lists.
//!
//! A list names revoked digests. Entries are sticky and carry no expiry, so
//! nothing here checks a validity window.
use vstd::prelude::*;

use super::bundle::{
    digest_payload_bytes, envelope_verdict, law_unlimited_keys_authenticate_at_any_time,
    no_windows, verify_signed_envelope, BundleSignature, BundleSignatureModel, EnvelopeVerificationError, EnvelopeVerificationErrorModel, KeyId,
    PayloadDigest, SignatureAlgorithm, TrustedKeyModel, TrustedVerificationKeys, MAX_PAYLOAD_BYTES,
};
use super::revision::RevisionDigest;
use crate::crypto::digest_text;
use crate::model::{Deep, Tag};
use crate::text::{blank, is_blank};
use crate::time::{parse_rfc3339, rfc3339, Timestamp};

verus! {

pub const REVOCATION_SCHEMA_VERSION: u32 = 1;

pub const SUPPORTED_REVOCATION_SCHEMA_VERSIONS: [u32; 1] = [1];

pub const MAX_REVOCATION_ENTRIES: usize = 4096;

/// What stands before the payload bytes of a signed revocation list.
pub const REVOCATION_SIGNING_DOMAIN: [u8; 28] = [
    102, 111, 114, 110, 97, 120, 45, 112, 111, 108, 105, 99, 121, 45, 114, 101, 118, 111, 99, 97,
    116, 105, 111, 110, 47, 118, 49, 10,
];

/// The envelope of a list. It asserts nothing about its own validity.
#[derive(Debug, Clone, PartialEq, Eq)]
pub struct SignedRevocationList {
    pub revocation_schema_version: u32,
    pub payload_b64: String,
    pub signatures: Vec<BundleSignature>,
}

/// The mathematical value of a [`SignedRevocationList`].
#[verifier::ext_equal]
pub struct SignedRevocationListModel {
    pub revocation_schema_version: u32,
    pub payload_b64: Seq<char>,
    pub signatures: Seq<BundleSignatureModel>,
}

impl DeepView for SignedRevocationList {
    type V = SignedRevocationListModel;

    open spec fn deep_view(&self) -> SignedRevocationListModel {
        SignedRevocationListModel {
            revocation_schema_version: self.revocation_schema_version.deep_view(),
            payload_b64: self.payload_b64.deep_view(),
            signatures: self.signatures.deep_view(),
        }
    }
}

impl Deep for SignedRevocationList {
    fn deep_clone(&self) -> (r: Self) {
        SignedRevocationList {
            revocation_schema_version: self.revocation_schema_version.deep_clone(),
            payload_b64: self.payload_b64.deep_clone(),
            signatures: self.signatures.deep_clone(),
        }
    }

    fn deep_eq(&self, other: &Self) -> (r: bool) {
        self.revocation_schema_version.deep_eq(&other.revocation_schema_version)
            && self.payload_b64.deep_eq(&other.payload_b64)
            && self.signatures.deep_eq(&other.signatures)
    }
}

/// What an entry names as revoked.
#[derive(Debug, Clone, PartialEq, Eq)]
pub enum RevocationTarget {
    RevisionDigest { digest: RevisionDigest },
    PayloadDigest { digest: PayloadDigest },
    /// A kind this binary does not know; it never spoils the rest of a list.
    Unrecognized,
}

/// The mathematical value of a [`RevocationTarget`].
#[verifier::ext_equal]
pub enum RevocationTargetModel {
    RevisionDigest { digest: Seq<char> },
    PayloadDigest { digest: Seq<char> },
    Unrecognized,
}

impl DeepView for RevocationTarget {
    type V = RevocationTargetModel;

    open spec fn deep_view(&self) -> RevocationTargetModel {
        match self {
            RevocationTarget::RevisionDigest { digest } => RevocationTargetModel::RevisionDigest {
                digest: digest.deep_view(),
            },
            RevocationTarget::PayloadDigest { digest } => RevocationTargetModel::PayloadDigest {
                digest: digest.deep_view(),
            },
            RevocationTarget::Unrecognized => RevocationTargetModel::Unrecognized,
        }
    }
}

impl Deep for RevocationTarget {
    fn deep_clone(&self) -> (r: Self) {
        match self {
            RevocationTarget::RevisionDigest { digest } => RevocationTarget::RevisionDigest {
                digest: digest.deep_clone(),
            },
            RevocationTarget::PayloadDigest { digest } => RevocationTarget::PayloadDigest {
                digest: digest.deep_clone(),
            },
            RevocationTarget::Unrecognized => RevocationTarget::Unrecognized,
        }
    }

    fn deep_eq(&self, other: &Self) -> (r: bool) {
        match (self, other) {
            (
                RevocationTarget::RevisionDigest { digest: a0 },
                RevocationTarget::RevisionDigest { digest: b0 },
            ) => a0.deep_eq(b0),
            (
                RevocationTarget::PayloadDigest { digest: a0 },
                RevocationTarget::PayloadDigest { digest: b0 },
            ) => a0.deep_eq(b0),
            (RevocationTarget::Unrecognized, RevocationTarget::Unrecognized) => true,
            _ => false,
        }
    }
}

#[derive(Debug, Clone, PartialEq, Eq)]
pub struct RevocationEntry {
    pub target: RevocationTarget,
    pub revoked_at: String,
    pub reason: String,
    pub audit_ref: Option<String>,
    pub superseded_by: Option<RevisionDigest>,
}

/// The mathematical value of a [`RevocationEntry`].
#[verifier::ext_equal]
pub struct RevocationEntryModel {
    pub target: RevocationTargetModel,
    pub revoked_at: Seq<char>,
    pub reason: Seq<char>,
    pub audit_ref: Option<Seq<char>>,
    pub superseded_by: Option<Seq<char>>,
}

impl DeepView for RevocationEntry {
    type V = RevocationEntryModel;

    open spec fn deep_view(&self) -> RevocationEntryModel {
        RevocationEntryModel {
            target: self.target.deep_view(),
            revoked_at: self.revoked_at.deep_view(),
            reason: self.reason.deep_view(),
            audit_ref: self.audit_ref.deep_view(),
            superseded_by: self.superseded_by.deep_view(),
        }
    }
}

impl Deep for RevocationEntry {
    fn deep_clone(&self) -> (r: Self) {
        RevocationEntry {
            target: self.target.deep_clone(),
            revoked_at: self.revoked_at.deep_clone(),
            reason: self.reason.deep_clone(),
            audit_ref: self.audit_ref.deep_clone(),
            superseded_by: self.superseded_by.deep_clone(),
        }
    }

    fn deep_eq(&self, other: &Self) -> (r: bool) {
        self.target.deep_eq(&other.target)
            && self.revoked_at.deep_eq(&other.revoked_at)
            && self.reason.deep_eq(&other.reason)
            && self.audit_ref.deep_eq(&other.audit_ref)
            && self.superseded_by.deep_eq(&other.superseded_by)
    }
}

/// The content of a list, parsed from authenticated bytes. Its entries are the
/// complete current set, never a delta.
#[derive(Debug, Clone, PartialEq, Eq)]
pub struct RevocationPayload {
    pub revocation_schema_version: u32,
    pub issuer: String,
    /// Per issuer, increasing.
    pub sequence: u64,
    pub issued_at: String,
    pub entries: Vec<RevocationEntry>,
}

/// The mathematical value of a [`RevocationPayload`].
#[verifier::ext_equal]
pub struct RevocationPayloadModel {
    pub revocation_schema_version: u32,
    pub issuer: Seq<char>,
    pub sequence: u64,
    pub issued_at: Seq<char>,
    pub entries: Seq<RevocationEntryModel>,
}

impl DeepView for RevocationPayload {
    type V = RevocationPayloadModel;

    open spec fn deep_view(&self) -> RevocationPayloadModel {
        RevocationPayloadModel {
            revocation_schema_version: self.revocation_schema_version.deep_view(),
            issuer: self.issuer.deep_view(),
            sequence: self.sequence.deep_view(),
            issued_at: self.issued_at.deep_view(),
            entries: self.entries.deep_view(),
        }
    }
}

impl Deep for RevocationPayload {
    fn deep_clone(&self) -> (r: Self) {
        RevocationPayload {
            revocation_schema_version: self.revocation_schema_version.deep_clone(),
            issuer: self.issuer.deep_clone(),
            sequence: self.sequence.deep_clone(),
            issued_at: self.issued_at.deep_clone(),
            entries: self.entries.deep_clone(),
        }
    }

    fn deep_eq(&self, other: &Self) -> (r: bool) {
        self.revocation_schema_version.deep_eq(&other.revocation_schema_version)
            && self.issuer.deep_eq(&other.issuer)
            && self.sequence.deep_eq(&other.sequence)
            && self.issued_at.deep_eq(&other.issued_at)
            && self.entries.deep_eq(&other.entries)
    }
}

/// Why a list is rejected: one variant per check.
#[derive(Debug, Clone, PartialEq, Eq)]
pub enum RevocationRejection {
    MalformedEnvelope { detail: String },
    UnsupportedRevocationSchemaVersion { found: u32, supported: Vec<u32> },
    SchemaVersionMismatch { envelope: u32, payload: u32 },
    MalformedPayloadEncoding { detail: String },
    PayloadTooLarge { found: usize, max: usize },
    NoSignatures,
    TooManySignatures { found: usize, max: usize },
    UnknownKeyId { offered: Vec<KeyId> },
    UnsupportedAlgorithm { key_id: KeyId, algorithm: SignatureAlgorithm },
    MalformedSignature { key_id: KeyId },
    KeyNotYetValid { key_id: KeyId, not_before: String, now: Timestamp },
    KeyRetired { key_id: KeyId, not_after: String, now: Timestamp },
    SignatureInvalid { key_ids: Vec<KeyId> },
    MalformedTimestamp { field: &'static str, value: String },
    EntryTimestampMalformed { index: usize, value: String },
    MalformedPayload { detail: String },
    TooManyEntries { found: usize, max: usize },
    EmptyReason { index: usize },
    EmptyIssuer,
}

/// The mathematical value of a [`RevocationRejection`].
#[verifier::ext_equal]
pub enum RevocationRejectionModel {
    MalformedEnvelope { detail: Seq<char> },
    UnsupportedRevocationSchemaVersion { found: u32, supported: Seq<u32> },
    SchemaVersionMismatch { envelope: u32, payload: u32 },
    MalformedPayloadEncoding { detail: Seq<char> },
    PayloadTooLarge { found: usize, max: usize },
    NoSignatures,
    TooManySignatures { found: usize, max: usize },
    UnknownKeyId { offered: Seq<Seq<char>> },
    UnsupportedAlgorithm { key_id: Seq<char>, algorithm: Tag },
    MalformedSignature { key_id: Seq<char> },
    KeyNotYetValid { key_id: Seq<char>, not_before: Seq<char>, now: Timestamp },
    KeyRetired { key_id: Seq<char>, not_after: Seq<char>, now: Timestamp },
    SignatureInvalid { key_ids: Seq<Seq<char>> },
    MalformedTimestamp { field: Seq<char>, value: Seq<char> },
    EntryTimestampMalformed { index: usize, value: Seq<char> },
    MalformedPayload { detail: Seq<char> },
    TooManyEntries { found: usize, max: usize },
    EmptyReason { index: usize },
    EmptyIssuer,
}

impl DeepView for RevocationRejection {
    type V = RevocationRejectionModel;

    open spec fn deep_view(&self) -> RevocationRejectionModel {
        match self {
            RevocationRejection::MalformedEnvelope { detail } => RevocationRejectionModel::MalformedEnvelope {
                detail: detail.deep_view(),
            },
            RevocationRejection::UnsupportedRevocationSchemaVersion { found, supported } => RevocationRejectionModel::UnsupportedRevocationSchemaVersion {
                found: found.deep_view(),
                supported: supported.deep_view(),
            },
            RevocationRejection::SchemaVersionMismatch { envelope, payload } => RevocationRejectionModel::SchemaVersionMismatch {
                envelope: envelope.deep_view(),
                payload: payload.deep_view(),
            },
            RevocationRejection::MalformedPayloadEncoding { detail } => RevocationRejectionModel::MalformedPayloadEncoding {
                detail: detail.deep_view(),
            },
            RevocationRejection::PayloadTooLarge { found, max } => RevocationRejectionModel::PayloadTooLarge {
                found: found.deep_view(),
                max: max.deep_view(),
            },
            RevocationRejection::NoSignatures => RevocationRejectionModel::NoSignatures,
            RevocationRejection::TooManySignatures { found, max } => RevocationRejectionModel::TooManySignatures {
                found: found.deep_view(),
                max: max.deep_view(),
            },
            RevocationRejection::UnknownKeyId { offered } => RevocationRejectionModel::UnknownKeyId {
                offered: offered.deep_view(),
            },
            RevocationRejection::UnsupportedAlgorithm { key_id, algorithm } => RevocationRejectionModel::UnsupportedAlgorithm {
                key_id: key_id.deep_view(),
                algorithm: algorithm.deep_view(),
            },
            RevocationRejection::MalformedSignature { key_id } => RevocationRejectionModel::MalformedSignature {
                key_id: key_id.deep_view(),
            },
            RevocationRejection::KeyNotYetValid { key_id, not_before, now } => RevocationRejectionModel::KeyNotYetValid {
                key_id: key_id.deep_view(),
                not_before: not_before.deep_view(),
                now: now.deep_view(),
            },
            RevocationRejection::KeyRetired { key_id, not_after, now } => RevocationRejectionModel::KeyRetired {
                key_id: key_id.deep_view(),
                not_after: not_after.deep_view(),
                now: now.deep_view(),
            },
            RevocationRejection::SignatureInvalid { key_ids } => RevocationRejectionModel::SignatureInvalid {
                key_ids: key_ids.deep_view(),
            },
            RevocationRejection::MalformedTimestamp { field, value } => RevocationRejectionModel::MalformedTimestamp {
                field: field.deep_view(),
                value: value.deep_view(),
            },
            RevocationRejection::EntryTimestampMalformed { index, value } => RevocationRejectionModel::EntryTimestampMalformed {
                index: index.deep_view(),
                value: value.deep_view(),
            },
            RevocationRejection::MalformedPayload { detail } => RevocationRejectionModel::MalformedPayload {
                detail: detail.deep_view(),
            },
            RevocationRejection::TooManyEntries { found, max } => RevocationRejectionModel::TooManyEntries {
                found: found.deep_view(),
                max: max.deep_view(),
            },
            RevocationRejection::EmptyReason { index } => RevocationRejectionModel::EmptyReason {
                index: index.deep_view(),
            },
            RevocationRejection::EmptyIssuer => RevocationRejectionModel::EmptyIssuer,
        }
    }
}

impl From<EnvelopeVerificationError> for RevocationRejection {
    fn from(e: EnvelopeVerificationError) -> (r: Self) {
        match e {
            EnvelopeVerificationError::MalformedPayloadEncoding { detail } => RevocationRejection::MalformedPayloadEncoding { detail },
            EnvelopeVerificationError::PayloadTooLarge { found, max } => RevocationRejection::PayloadTooLarge { found, max },
            EnvelopeVerificationError::NoSignatures => RevocationRejection::NoSignatures,
            EnvelopeVerificationError::TooManySignatures { found, max } => RevocationRejection::TooManySignatures { found, max },
            EnvelopeVerificationError::UnknownKeyId { offered } => RevocationRejection::UnknownKeyId { offered },
            EnvelopeVerificationError::UnsupportedAlgorithm { key_id, algorithm } => RevocationRejection::UnsupportedAlgorithm { key_id, algorithm },
            EnvelopeVerificationError::MalformedSignature { key_id } => RevocationRejection::MalformedSignature { key_id },
            EnvelopeVerificationError::KeyNotYetValid { key_id, not_before, now } => RevocationRejection::KeyNotYetValid { key_id, not_before, now },
            EnvelopeVerificationError::KeyRetired { key_id, not_after, now } => RevocationRejection::KeyRetired { key_id, not_after, now },
            EnvelopeVerificationError::SignatureInvalid { key_ids } => RevocationRejection::SignatureInvalid { key_ids },
            EnvelopeVerificationError::MalformedKeyTimestamp { field, value } => RevocationRejection::MalformedTimestamp { field, value },
        }
    }
}

impl vstd::std_specs::convert::FromSpecImpl<EnvelopeVerificationError> for RevocationRejection {
    open spec fn obeys_from_spec() -> bool {
        true
    }

    open spec fn from_spec(e: EnvelopeVerificationError) -> Self {
        match e {
            EnvelopeVerificationError::MalformedPayloadEncoding { detail } => RevocationRejection::MalformedPayloadEncoding { detail },
            EnvelopeVerificationError::PayloadTooLarge { found, max } => RevocationRejection::PayloadTooLarge { found, max },
            EnvelopeVerificationError::NoSignatures => RevocationRejection::NoSignatures,
            EnvelopeVerificationError::TooManySignatures { found, max } => RevocationRejection::TooManySignatures { found, max },
            EnvelopeVerificationError::UnknownKeyId { offered } => RevocationRejection::UnknownKeyId { offered },
            EnvelopeVerificationError::UnsupportedAlgorithm { key_id, algorithm } => RevocationRejection::UnsupportedAlgorithm { key_id, algorithm },
            EnvelopeVerificationError::MalformedSignature { key_id } => RevocationRejection::MalformedSignature { key_id },
            EnvelopeVerificationError::KeyNotYetValid { key_id, not_before, now } => RevocationRejection::KeyNotYetValid { key_id, not_before, now },
            EnvelopeVerificationError::KeyRetired { key_id, not_after, now } => RevocationRejection::KeyRetired { key_id, not_after, now },
            EnvelopeVerificationError::SignatureInvalid { key_ids } => RevocationRejection::SignatureInvalid { key_ids },
            EnvelopeVerificationError::MalformedKeyTimestamp { field, value } => RevocationRejection::MalformedTimestamp { field, value },
        }
    }
}

/// The rejection an envelope error amounts to: the same check, under the same
/// name.
pub open spec fn revocation_rejection(e: EnvelopeVerificationErrorModel) -> RevocationRejectionModel {
    match e {
        EnvelopeVerificationErrorModel::MalformedPayloadEncoding { detail } => RevocationRejectionModel::MalformedPayloadEncoding { detail },
        EnvelopeVerificationErrorModel::PayloadTooLarge { found, max } => RevocationRejectionModel::PayloadTooLarge { found, max },
        EnvelopeVerificationErrorModel::NoSignatures => RevocationRejectionModel::NoSignatures,
        EnvelopeVerificationErrorModel::TooManySignatures { found, max } => RevocationRejectionModel::TooManySignatures { found, max },
        EnvelopeVerificationErrorModel::UnknownKeyId { offered } => RevocationRejectionModel::UnknownKeyId { offered },
        EnvelopeVerificationErrorModel::UnsupportedAlgorithm { key_id, algorithm } => RevocationRejectionModel::UnsupportedAlgorithm { key_id, algorithm },
        EnvelopeVerificationErrorModel::MalformedSignature { key_id } => RevocationRejectionModel::MalformedSignature { key_id },
        EnvelopeVerificationErrorModel::KeyNotYetValid { key_id, not_before, now } => RevocationRejectionModel::KeyNotYetValid { key_id, not_before, now },
        EnvelopeVerificationErrorModel::KeyRetired { key_id, not_after, now } => RevocationRejectionModel::KeyRetired { key_id, not_after, now },
        EnvelopeVerificationErrorModel::SignatureInvalid { key_ids } => RevocationRejectionModel::SignatureInvalid { key_ids },
        EnvelopeVerificationErrorModel::MalformedKeyTimestamp { field, value } => RevocationRejectionModel::MalformedTimestamp { field, value },
    }
}

/// A list whose envelope has been authenticated; its payload bytes may now be
/// parsed.
#[derive(Debug, Clone, PartialEq, Eq)]
pub struct AuthenticatedRevocationList {
    revocation_schema_version: u32,
    payload_bytes: Vec<u8>,
    verified_by: KeyId,
}

/// The mathematical value of an [`AuthenticatedRevocationList`].
#[verifier::ext_equal]
pub struct AuthenticatedRevocationListModel {
    pub revocation_schema_version: u32,
    pub payload_bytes: Seq<u8>,
    pub verified_by: Seq<char>,
}

impl DeepView for AuthenticatedRevocationList {
    type V = AuthenticatedRevocationListModel;

    closed spec fn deep_view(&self) -> AuthenticatedRevocationListModel {
        AuthenticatedRevocationListModel {
            revocation_schema_version: self.revocation_schema_version,
            payload_bytes: self.payload_bytes@,
            verified_by: self.verified_by.deep_view(),
        }
    }
}

impl AuthenticatedRevocationList {
    /// The bytes the signature covers, without the domain.
    pub fn payload_bytes(&self) -> (r: &Vec<u8>)
        ensures
            r@ == self.deep_view().payload_bytes,
    {
        &self.payload_bytes
    }
}

/// Whether a revocation schema version is one this library reads.
pub open spec fn revocation_schema_supported(version: u32) -> bool {
    SUPPORTED_REVOCATION_SCHEMA_VERSIONS@.contains(version)
}

/// The outcome of authenticating a parsed envelope.
pub open spec fn revocation_authentication(
    envelope: SignedRevocationListModel,
    trusted: Seq<TrustedKeyModel>,
    now: Timestamp,
) -> Result<AuthenticatedRevocationListModel, RevocationRejectionModel> {
    if !revocation_schema_supported(envelope.revocation_schema_version) {
        Err(
            RevocationRejectionModel::UnsupportedRevocationSchemaVersion {
                found: envelope.revocation_schema_version,
                supported: SUPPORTED_REVOCATION_SCHEMA_VERSIONS@,
            },
        )
    } else {
        match envelope_verdict(
            envelope.payload_b64,
            envelope.signatures,
            REVOCATION_SIGNING_DOMAIN@,
            MAX_PAYLOAD_BYTES,
            trusted,
            now,
        ) {
            Ok((payload_bytes, verified_by)) => Ok(
                AuthenticatedRevocationListModel {
                    revocation_schema_version: envelope.revocation_schema_version,
                    payload_bytes,
                    verified_by,
                },
            ),
            Err(e) => Err(revocation_rejection(e)),
        }
    }
}

/// First step of verification: authenticates an envelope, given what its
/// bytes parsed to.
pub fn authenticate_revocation_list(
    envelope: Result<SignedRevocationList, String>,
    trusted: &TrustedVerificationKeys,
    now: Timestamp,
) -> (r: Result<AuthenticatedRevocationList, RevocationRejection>)
    ensures
        match (envelope, r) {
            (Err(detail), Err(e)) => e.deep_view() == (RevocationRejectionModel::MalformedEnvelope {
                detail: detail@,
            }),
            (Err(_), Ok(_)) => false,
            (Ok(envelope), Ok(list)) => revocation_authentication(
                envelope.deep_view(),
                trusted.keys.deep_view(),
                now,
            ) == Ok::<AuthenticatedRevocationListModel, RevocationRejectionModel>(list.deep_view()),
            (Ok(envelope), Err(e)) => revocation_authentication(
                envelope.deep_view(),
                trusted.keys.deep_view(),
                now,
            ) == Err::<AuthenticatedRevocationListModel, RevocationRejectionModel>(e.deep_view()),
        },
{
    let envelope = match envelope {
        Ok(e) => e,
        Err(detail) => {
            return Err(RevocationRejection::MalformedEnvelope { detail });
        },
    };
    let supported = SUPPORTED_REVOCATION_SCHEMA_VERSIONS;
    if envelope.revocation_schema_version != supported[0] {
        let mut versions: Vec<u32> = Vec::new();
        versions.push(supported[0]);
        assert(versions.deep_view() =~= SUPPORTED_REVOCATION_SCHEMA_VERSIONS@);
        return Err(
            RevocationRejection::UnsupportedRevocationSchemaVersion {
                found: envelope.revocation_schema_version,
                supported: versions,
            },
        );
    }
    assert(SUPPORTED_REVOCATION_SCHEMA_VERSIONS@[0] == envelope.revocation_schema_version);
    let domain = REVOCATION_SIGNING_DOMAIN;
    match verify_signed_envelope(
        envelope.payload_b64.as_str(),
        &envelope.signatures,
        domain.as_slice(),
        MAX_PAYLOAD_BYTES,
        trusted,
        now,
    ) {
        Ok(v) => Ok(
            AuthenticatedRevocationList {
                revocation_schema_version: envelope.revocation_schema_version,
                payload_bytes: v.payload_bytes,
                verified_by: v.verified_by,
            },
        ),
        Err(e) => Err(RevocationRejection::from(e)),
    }
}

/// An authenticated list whose content has passed every check.
#[derive(Debug, Clone, PartialEq, Eq)]
pub struct VerifiedRevocationList {
    payload: RevocationPayload,
    verified_by: KeyId,
    payload_digest: PayloadDigest,
}

/// The mathematical value of a [`VerifiedRevocationList`].
#[verifier::ext_equal]
pub struct VerifiedRevocationListModel {
    pub payload: RevocationPayloadModel,
    pub verified_by: Seq<char>,
    pub payload_digest: Seq<char>,
}

impl DeepView for VerifiedRevocationList {
    type V = VerifiedRevocationListModel;

    closed spec fn deep_view(&self) -> VerifiedRevocationListModel {
        VerifiedRevocationListModel {
            payload: self.payload.deep_view(),
            verified_by: self.verified_by.deep_view(),
            payload_digest: self.payload_digest.deep_view(),
        }
    }
}

impl VerifiedRevocationList {
    pub fn issuer(&self) -> (r: &str)
        ensures
            r@ == self.deep_view().payload.issuer,
    {
        self.payload.issuer.as_str()
    }

    pub fn sequence(&self) -> (r: u64)
        ensures
            r == self.deep_view().payload.sequence,
    {
        self.payload.sequence
    }

    pub fn entries(&self) -> (r: &Vec<RevocationEntry>)
        ensures
            r.deep_view() == self.deep_view().payload.entries,
    {
        &self.payload.entries
    }

    pub fn verified_by(&self) -> (r: &KeyId)
        ensures
            r.deep_view() == self.deep_view().verified_by,
    {
        &self.verified_by
    }

    pub fn payload_digest(&self) -> (r: &PayloadDigest)
        ensures
            r.deep_view() == self.deep_view().payload_digest,
    {
        &self.payload_digest
    }
}

/// The first entry from `i` on whose `revoked_at` is not a timestamp.
pub open spec fn first_bad_time(entries: Seq<RevocationEntryModel>, i: int) -> Option<int>
    decreases entries.len() - i,
{
    if i < 0 || i >= entries.len() {
        None
    } else if rfc3339(entries[i].revoked_at) is None {
        Some(i)
    } else {
        first_bad_time(entries, i + 1)
    }
}

/// The first entry from `i` on whose reason is blank.
pub open spec fn first_blank_reason(entries: Seq<RevocationEntryModel>, i: int) -> Option<int>
    decreases entries.len() - i,
{
    if i < 0 || i >= entries.len() {
        None
    } else if is_blank(entries[i].reason) {
        Some(i)
    } else {
        first_blank_reason(entries, i + 1)
    }
}

/// Why the content of an authenticated list is rejected, if it is.
pub open spec fn revocation_problem(
    list: AuthenticatedRevocationListModel,
    payload: RevocationPayloadModel,
) -> Option<RevocationRejectionModel> {
    if payload.revocation_schema_version != list.revocation_schema_version {
        Some(
            RevocationRejectionModel::SchemaVersionMismatch {
                envelope: list.revocation_schema_version,
                payload: payload.revocation_schema_version,
            },
        )
    } else if rfc3339(payload.issued_at) is None {
        Some(
            RevocationRejectionModel::MalformedTimestamp {
                field: "issued_at"@,
                value: payload.issued_at,
            },
        )
    } else if first_bad_time(payload.entries, 0) is Some {
        let i = first_bad_time(payload.entries, 0).unwrap();
        Some(
            RevocationRejectionModel::EntryTimestampMalformed {
                index: i as usize,
                value: payload.entries[i].revoked_at,
            },
        )
    } else if payload.entries.len() > MAX_REVOCATION_ENTRIES {
        Some(
            RevocationRejectionModel::TooManyEntries {
                found: payload.entries.len() as usize,
                max: MAX_REVOCATION_ENTRIES,
            },
        )
    } else if first_blank_reason(payload.entries, 0) is Some {
        Some(
            RevocationRejectionModel::EmptyReason {
                index: first_blank_reason(payload.entries, 0).unwrap() as usize,
            },
        )
    } else if is_blank(payload.issuer) {
        Some(RevocationRejectionModel::EmptyIssuer)
    } else {
        None
    }
}

/// The outcome of checking what an authenticated payload parsed to.
pub open spec fn revocation_verification(
    list: AuthenticatedRevocationListModel,
    payload: RevocationPayloadModel,
) -> Result<VerifiedRevocationListModel, RevocationRejectionModel> {
    match revocation_problem(list, payload) {
        Some(e) => Err(e),
        None => Ok(
            VerifiedRevocationListModel {
                payload,
                verified_by: list.verified_by,
                payload_digest: digest_text(list.payload_bytes),
            },
        ),
    }
}

fn find_bad_time(entries: &Vec<RevocationEntry>) -> (r: Option<usize>)
    ensures
        match r {
            Some(i) => i < entries.len() && first_bad_time(entries.deep_view(), 0) == Some(
                i as int,
            ),
            None => first_bad_time(entries.deep_view(), 0) is None,
        },
{
    let mut i: usize = 0;
    while i < entries.len()
        invariant
            i <= entries.len(),
            first_bad_time(entries.deep_view(), 0) == first_bad_time(
                entries.deep_view(),
                i as int,
            ),
        decreases entries.len() - i,
    {
        assert(entries.deep_view()[i as int] == entries@[i as int].deep_view());
        if parse_rfc3339(entries[i].revoked_at.as_str()).is_none() {
            return Some(i);
        }
        i = i + 1;
    }
    None
}

fn find_blank_reason(entries: &Vec<RevocationEntry>) -> (r: Option<usize>)
    ensures
        match r {
            Some(i) => i < entries.len() && first_blank_reason(entries.deep_view(), 0) == Some(
                i as int,
            ),
            None => first_blank_reason(entries.deep_view(), 0) is None,
        },
{
    let mut i: usize = 0;
    while i < entries.len()
        invariant
            i <= entries.len(),
            first_blank_reason(entries.deep_view(), 0) == first_blank_reason(
                entries.deep_view(),
                i as int,
            ),
        decreases entries.len() - i,
    {
        assert(entries.deep_view()[i as int] == entries@[i as int].deep_view());
        if blank(entries[i].reason.as_str()) {
            return Some(i);
        }
        i = i + 1;
    }
    None
}

/// Second step of verification: checks the content of an authenticated list,
/// given what its payload bytes parsed to. The versions of envelope and
/// payload agree; the timestamps parse; there are not too many entries; every
/// entry gives a reason and the list an issuer.
pub fn verify_revocation_list(
    list: AuthenticatedRevocationList,
    payload: Result<RevocationPayload, String>,
) -> (r: Result<VerifiedRevocationList, RevocationRejection>)
    ensures
        match (payload, r) {
            (Err(detail), Err(e)) => e.deep_view() == (RevocationRejectionModel::MalformedPayload {
                detail: detail@,
            }),
            (Err(_), Ok(_)) => false,
            (Ok(payload), Ok(verified)) => revocation_verification(
                list.deep_view(),
                payload.deep_view(),
            ) == Ok::<VerifiedRevocationListModel, RevocationRejectionModel>(verified.deep_view()),
            (Ok(payload), Err(e)) => revocation_verification(
                list.deep_view(),
                payload.deep_view(),
            ) == Err::<VerifiedRevocationListModel, RevocationRejectionModel>(e.deep_view()),
        },
{
    let payload = match payload {
        Ok(p) => p,
        Err(detail) => {
            return Err(RevocationRejection::MalformedPayload { detail });
        },
    };
    if payload.revocation_schema_version != list.revocation_schema_version {
        return Err(
            RevocationRejection::SchemaVersionMismatch {
                envelope: list.revocation_schema_version,
                payload: payload.revocation_schema_version,
            },
        );
    }
    if parse_rfc3339(payload.issued_at.as_str()).is_none() {
        return Err(
            RevocationRejection::MalformedTimestamp {
                field: "issued_at",
                value: payload.issued_at,
            },
        );
    }
    if let Some(index) = find_bad_time(&payload.entries) {
        assert(payload.deep_view().entries[index as int]
            == payload.entries@[index as int].deep_view());
        return Err(
            RevocationRejection::EntryTimestampMalformed {
                index,
                value: payload.entries[index].revoked_at.clone(),
            },
        );
    }
    if payload.entries.len() > MAX_REVOCATION_ENTRIES {
        return Err(
            RevocationRejection::TooManyEntries {
                found: payload.entries.len(),
                max: MAX_REVOCATION_ENTRIES,
            },
        );
    }
    if let Some(index) = find_blank_reason(&payload.entries) {
        return Err(RevocationRejection::EmptyReason { index });
    }
    if blank(payload.issuer.as_str()) {
        return Err(RevocationRejection::EmptyIssuer);
    }
    let payload_digest = digest_payload_bytes(list.payload_bytes.as_slice());
    Ok(VerifiedRevocationList { payload, verified_by: list.verified_by, payload_digest })
}

/// A revocation list never expires: where no trusted key is limited in time,
/// it is authenticated alike at any two instants. What is checked of it after
/// that does not depend on the time.
pub proof fn law_revocation_lists_never_expire(
    envelope: SignedRevocationListModel,
    trusted: Seq<TrustedKeyModel>,
    a: Timestamp,
    b: Timestamp,
)
    requires
        no_windows(trusted),
    ensures
        revocation_authentication(envelope, trusted, a) == revocation_authentication(
            envelope,
            trusted,
            b,
        ),
{
    law_unlimited_keys_authenticate_at_any_time(
        envelope.payload_b64,
        envelope.signatures,
        REVOCATION_SIGNING_DOMAIN@,
        MAX_PAYLOAD_BYTES,
        trusted,
        a,
        b,
    );
}

} // verus!

use base64::engine::general_purpose::STANDARD;
use base64::Engine;
use ed25519_dalek::{Signer, SigningKey};

use fornax_types::order::SortedSet;
use fornax_types::policy::bundle::digest_payload_bytes;
use fornax_types::policy::{
    authenticate_bundle, BundlePayload, BundleProvenance, BundleSignature,
    SignatureAlgorithm, SignedPolicyBundle, TrustedKey, BUNDLE_SIGNING_DOMAIN,
    CLOCK_SKEW_TOLERANCE_SECONDS, MAX_PAYLOAD_BYTES, MAX_SIGNATURES,
};
use fornax_types::time::parse_rfc3339;
use fornax_types::{
    verify_bundle, BundleRejection, KeyId, PolicyBinding, PolicyContent, PolicyDraft, PolicyId,
    PublishedPolicyRevision, RevisionDigest, TargetScope, TargetSelector, Timestamp,
    TrustedVerificationKeys, Uuid, VerifiedPolicyBundle,
};
use sha2::{Digest, Sha256};

fn at(text: &str) -> Timestamp {
    parse_rfc3339(text).unwrap()
}

fn now() -> Timestamp {
    at("2026-06-01T00:00:00Z")
}

fn signing_key(seed: u8) -> SigningKey {
    SigningKey::from_bytes(&[seed; 32])
}

fn key(id: &str, seed: u8) -> TrustedKey {
    TrustedKey {
        key_id: KeyId(id.to_string()),
        algorithm: SignatureAlgorithm::Ed25519,
        public_key_b64: STANDARD.encode(signing_key(seed).verifying_key().to_bytes()),
        not_before: None,
        not_after: None,
        comment: None,
    }
}

fn store(keys: Vec<TrustedKey>) -> TrustedVerificationKeys {
    TrustedVerificationKeys { schema_version: 1, keys }
}

fn revision() -> PublishedPolicyRevision {
    PolicyDraft {
        policy_id: PolicyId(Uuid::from_u128(11)),
        revision: 1,
        supersedes: None,
        display_name: "policy".to_string(),
        content: PolicyContent::default(),
        pinned_fields: SortedSet::new(),
    }
    .publish("2026-01-01T00:00:00Z".to_string())
    .unwrap()
}

fn payload() -> BundlePayload {
    let revision = revision();
    let binding = PolicyBinding {
        binding_id: Uuid::from_u128(21),
        scope: TargetScope::Org { org_id: "org-1".to_string() },
        selector: TargetSelector::default(),
        revision_ref: revision.reference(),
    };
    BundlePayload {
        bundle_schema_version: 1,
        bundle_id: Uuid::from_u128(31),
        sequence: 4,
        issued_at: "2026-01-01T00:00:00Z".to_string(),
        not_before: "2026-01-01T00:00:00Z".to_string(),
        expires_at: "2027-01-01T00:00:00Z".to_string(),
        provenance: BundleProvenance {
            issuer: "issuer-a".to_string(),
            audit_ref: None,
            authorized_by: None,
        },
        revision,
        bindings: vec![binding],
    }
}

fn signature(id: &str, seed: u8, bytes: &[u8]) -> BundleSignature {
    let mut message = BUNDLE_SIGNING_DOMAIN.to_vec();
    message.extend_from_slice(bytes);
    BundleSignature {
        key_id: KeyId(id.to_string()),
        algorithm: SignatureAlgorithm::Ed25519,
        signature_b64: STANDARD.encode(signing_key(seed).sign(&message).to_bytes()),
    }
}

fn envelope(bytes: &[u8], signatures: Vec<BundleSignature>) -> SignedPolicyBundle {
    SignedPolicyBundle {
        bundle_schema_version: 1,
        payload_b64: STANDARD.encode(bytes),
        signatures,
    }
}

fn refusal(e: SignedPolicyBundle, keys: Vec<TrustedKey>) -> BundleRejection {
    authenticate_bundle(Ok(e), &store(keys), now()).unwrap_err()
}

fn verify_at(p: BundlePayload, t: Timestamp) -> Result<VerifiedPolicyBundle, BundleRejection> {
    let bytes = b"any bytes".to_vec();
    let e = envelope(&bytes, vec![signature("k1", 7, &bytes)]);
    let authenticated = authenticate_bundle(Ok(e), &store(vec![key("k1", 7)]), t)?;
    verify_bundle(authenticated, Ok(p), t)
}

fn verify(p: BundlePayload) -> Result<VerifiedPolicyBundle, BundleRejection> {
    verify_at(p, now())
}

#[test]
fn a_signed_bundle_verifies_and_says_by_whom() {
    let verified = verify(payload()).unwrap();
    assert_eq!(verified.payload(), &payload());
    assert_eq!(verified.revision(), &revision());
    assert_eq!(verified.bindings().len(), 1);
    assert_eq!(verified.verified_by(), &KeyId("k1".to_string()));
    assert_eq!(verified.payload_digest(), &digest_payload_bytes(b"any bytes"));
    let mut hex = String::from("sha256:");
    for byte in Sha256::digest(b"any bytes").iter() {
        hex.push_str(&format!("{byte:02x}"));
    }
    assert_eq!(verified.payload_digest().as_str(), hex);
    let bound = verified.into_bound_revisions().unwrap();
    assert_eq!(bound.len(), 1);
    assert_eq!(bound[0].revision(), &revision());
    assert_eq!(bound[0].binding().binding_id, Uuid::from_u128(21));
}

#[test]
fn the_authenticated_bytes_are_the_decoded_payload() {
    let bytes = b"\x00\xff{}".to_vec();
    let e = envelope(&bytes, vec![signature("k1", 7, &bytes)]);
    let a = authenticate_bundle(Ok(e), &store(vec![key("k1", 7)]), now()).unwrap();
    assert_eq!(a.payload_bytes(), &bytes);
    assert_eq!(a.verified_by(), &KeyId("k1".to_string()));
}

#[test]
fn what_does_not_parse_is_refused_with_the_detail() {
    assert_eq!(
        authenticate_bundle(Err("eof".to_string()), &store(vec![]), now()).unwrap_err(),
        BundleRejection::MalformedEnvelope { detail: "eof".to_string() }
    );
    let bytes = b"x".to_vec();
    let e = envelope(&bytes, vec![signature("k1", 7, &bytes)]);
    let a = authenticate_bundle(Ok(e), &store(vec![key("k1", 7)]), now()).unwrap();
    assert_eq!(
        verify_bundle(a, Err("bad".to_string()), now()).unwrap_err(),
        BundleRejection::MalformedPayload { detail: "bad".to_string() }
    );
}

#[test]
fn envelope_shape_is_checked_before_signatures() {
    let mut e = envelope(b"x", vec![]);
    e.bundle_schema_version = 9;
    assert_eq!(
        refusal(e, vec![]),
        BundleRejection::UnsupportedBundleSchemaVersion { found: 9, supported: vec![1] }
    );
    assert_eq!(refusal(envelope(b"x", vec![]), vec![]), BundleRejection::NoSignatures);
    let many = vec![signature("k1", 7, b"x"); MAX_SIGNATURES + 1];
    assert_eq!(
        refusal(envelope(b"x", many), vec![key("k1", 7)]),
        BundleRejection::TooManySignatures { found: 9, max: 8 }
    );
    let mut e = envelope(b"x", vec![signature("k1", 7, b"x")]);
    e.payload_b64 = "eA".to_string();
    assert!(matches!(
        refusal(e, vec![key("k1", 7)]),
        BundleRejection::MalformedPayloadEncoding { .. }
    ));
    let large = vec![0u8; MAX_PAYLOAD_BYTES + 1];
    assert_eq!(
        refusal(envelope(&large, vec![signature("k1", 7, b"x")]), vec![key("k1", 7)]),
        BundleRejection::PayloadTooLarge { found: 1_048_577, max: 1_048_576 }
    );
    let largest = vec![0u8; MAX_PAYLOAD_BYTES];
    let e = envelope(&largest, vec![signature("k1", 7, &largest)]);
    assert!(authenticate_bundle(Ok(e), &store(vec![key("k1", 7)]), now()).is_ok());
}

#[test]
fn signatures_are_refused_for_each_problem() {
    let k1 = KeyId("k1".to_string());
    let signed = |id: &str, seed: u8| envelope(b"x", vec![signature(id, seed, b"x")]);

    assert_eq!(
        refusal(signed("k9", 7), vec![key("k1", 7)]),
        BundleRejection::UnknownKeyId { offered: vec![KeyId("k9".to_string())] }
    );
    assert_eq!(
        refusal(signed("k1", 8), vec![key("k1", 7)]),
        BundleRejection::SignatureInvalid { key_ids: vec![k1.clone()] }
    );

    let mut early = key("k1", 7);
    early.not_before = Some("2026-06-01T00:00:01Z".to_string());
    assert_eq!(
        refusal(signed("k1", 7), vec![early]),
        BundleRejection::KeyNotYetValid {
            key_id: k1.clone(),
            not_before: "2026-06-01T00:00:01Z".to_string(),
            now: now(),
        }
    );
    let mut retired = key("k1", 7);
    retired.not_after = Some("2026-05-31T23:59:59Z".to_string());
    assert_eq!(
        refusal(signed("k1", 7), vec![retired]),
        BundleRejection::KeyRetired {
            key_id: k1.clone(),
            not_after: "2026-05-31T23:59:59Z".to_string(),
            now: now(),
        }
    );
    let mut garbled = key("k1", 7);
    garbled.not_after = Some("never".to_string());
    assert_eq!(
        refusal(signed("k1", 7), vec![garbled]),
        BundleRejection::MalformedTimestamp {
            field: "trusted_key.not_after",
            value: "never".to_string(),
        }
    );

    let mut exotic = signed("k1", 7);
    exotic.signatures[0].algorithm = SignatureAlgorithm::Unrecognized("rsa".to_string());
    assert_eq!(
        refusal(exotic, vec![key("k1", 7)]),
        BundleRejection::UnsupportedAlgorithm {
            key_id: k1.clone(),
            algorithm: SignatureAlgorithm::Unrecognized("rsa".to_string()),
        }
    );
    let mut short = signed("k1", 7);
    short.signatures[0].signature_b64 = STANDARD.encode([1u8; 63]);
    assert_eq!(
        refusal(short, vec![key("k1", 7)]),
        BundleRejection::MalformedSignature { key_id: k1.clone() }
    );
    let mut unreadable = key("k1", 7);
    unreadable.public_key_b64 = "*".to_string();
    assert_eq!(
        refusal(signed("k1", 7), vec![unreadable]),
        BundleRejection::MalformedSignature { key_id: k1 }
    );
}

#[test]
fn key_windows_include_their_ends() {
    let mut k = key("k1", 7);
    k.not_before = Some("2026-06-01T00:00:00Z".to_string());
    k.not_after = Some("2026-06-01T00:00:00Z".to_string());
    let e = envelope(b"x", vec![signature("k1", 7, b"x")]);
    assert!(authenticate_bundle(Ok(e), &store(vec![k]), now()).is_ok());
}

#[test]
fn one_valid_signature_suffices_among_others() {
    let e = envelope(
        b"x",
        vec![
            signature("k9", 9, b"x"),
            signature("k2", 7, b"x"),
            signature("k1", 7, b"x"),
        ],
    );
    let a =
        authenticate_bundle(Ok(e), &store(vec![key("k1", 7), key("k2", 8)]), now()).unwrap();
    assert_eq!(a.verified_by(), &KeyId("k1".to_string()));
}

#[test]
fn a_failed_check_outranks_a_skipped_key() {
    let mut retired = key("k1", 7);
    retired.not_after = Some("2020-01-01T00:00:00Z".to_string());
    let e = envelope(
        b"x",
        vec![signature("k1", 7, b"x"), signature("k2", 9, b"x"), signature("k3", 9, b"x")],
    );
    assert_eq!(
        refusal(e, vec![retired, key("k2", 8), key("k3", 7)]),
        BundleRejection::SignatureInvalid {
            key_ids: vec![KeyId("k2".to_string()), KeyId("k3".to_string())],
        }
    );
}

#[test]
fn payloads_are_refused_for_each_problem() {
    let mut p = payload();
    p.bundle_schema_version = 2;
    assert_eq!(
        verify(p).unwrap_err(),
        BundleRejection::SchemaVersionMismatch { envelope: 1, payload: 2 }
    );
    let mut p = payload();
    p.not_before = "x".to_string();
    p.expires_at = "y".to_string();
    assert_eq!(
        verify(p).unwrap_err(),
        BundleRejection::MalformedTimestamp { field: "not_before", value: "x".to_string() }
    );
    let mut p = payload();
    p.expires_at = "y".to_string();
    assert_eq!(
        verify(p).unwrap_err(),
        BundleRejection::MalformedTimestamp { field: "expires_at", value: "y".to_string() }
    );
    let mut p = payload();
    p.issued_at = "z".to_string();
    assert_eq!(
        verify(p).unwrap_err(),
        BundleRejection::MalformedTimestamp { field: "issued_at", value: "z".to_string() }
    );
    let mut p = payload();
    let mut stray = p.bindings[0].clone();
    stray.binding_id = Uuid::from_u128(22);
    stray.revision_ref.digest = RevisionDigest::from_text("sha256:other".to_string());
    p.bindings.push(stray);
    assert_eq!(
        verify(p).unwrap_err(),
        BundleRejection::BindingRevisionMismatch {
            binding_id: Uuid::from_u128(22),
            expected: "sha256:other".to_string(),
            actual: revision().digest().as_str().to_string(),
        }
    );
}

#[test]
fn the_validity_window_has_grace_at_its_start_only() {
    assert_eq!(CLOCK_SKEW_TOLERANCE_SECONDS, 300);
    assert!(verify_at(payload(), at("2025-12-31T23:55:00Z")).is_ok());
    let early = at("2025-12-31T23:54:59Z");
    assert_eq!(
        verify_at(payload(), early).unwrap_err(),
        BundleRejection::BundleNotYetValid {
            not_before: "2026-01-01T00:00:00Z".to_string(),
            now: early,
            tolerance_seconds: 300,
        }
    );
    assert!(verify_at(payload(), at("2027-01-01T00:00:00Z")).is_ok());
    let late = at("2027-01-01T00:00:00.000000001Z");
    assert_eq!(
        verify_at(payload(), late).unwrap_err(),
        BundleRejection::BundleExpired {
            expires_at: "2027-01-01T00:00:00Z".to_string(),
            now: late,
        }
    );
}

#[test]
fn the_signing_domain_has_its_bytes() {
    assert_eq!(&BUNDLE_SIGNING_DOMAIN[..], b"fornax-policy-bundle/v1\n");
}

use base64::engine::general_purpose::STANDARD as B64;
use base64::Engine;
use ed25519_dalek::{Signer, SigningKey};

use fornax_types::audit_checkpoint::{check_required_keys, Outline};
use fornax_types::policy::{
    BundleSignature, SignatureAlgorithm, TrustedKey, BUNDLE_SIGNING_DOMAIN,
};
use fornax_types::time::parse_rfc3339;
use fornax_types::{
    authenticate_audit_checkpoint, divergence_kind_wire, verify_audit_checkpoint,
    AuditCheckpointPayload, CheckpointRejection, DeviceReportedChainStatus, KeyId, LedgerHead,
    PrevCheckpoint, SignedAuditCheckpoint, Timestamp, TrustedVerificationKeys,
    VerifiedAuditCheckpoint, AUDIT_CHECKPOINT_SIGNING_DOMAIN, REVOCATION_SIGNING_DOMAIN,
};

fn signing_key(seed: u8) -> SigningKey {
    SigningKey::from_bytes(&[seed; 32])
}

fn trust_store(key_id: &str, key: &SigningKey) -> TrustedVerificationKeys {
    TrustedVerificationKeys {
        schema_version: 1,
        keys: vec![TrustedKey {
            key_id: KeyId(key_id.to_string()),
            algorithm: SignatureAlgorithm::Ed25519,
            public_key_b64: B64.encode(key.verifying_key().to_bytes()),
            not_before: None,
            not_after: None,
            comment: None,
        }],
    }
}

fn now() -> Timestamp {
    parse_rfc3339("2026-09-03T12:00:10Z").unwrap()
}

fn sample_payload() -> AuditCheckpointPayload {
    AuditCheckpointPayload {
        checkpoint_schema_version: 1,
        issuer: "fornax-cloud:7f3d1c2a-9b4e-4d80-a1f6-2c5e8d0b1234".to_string(),
        device_id: "d41d8cd9-8f00-4204-a980-0998ecf8427e".to_string(),
        checkpoint_seq: 1,
        issued_at: "2026-09-03T12:00:05Z".to_string(),
        observed_at: "2026-09-03T12:00:00Z".to_string(),
        head: LedgerHead {
            ledger_seq: 5,
            entry_hash: "sha256:e967d0e31e6afd2a3a0f5bd805e39f85eb0eeb4e176e88e0e65d3c26a1cba464"
                .to_string(),
        },
        device_reported_chain_status: DeviceReportedChainStatus {
            status: "valid".to_string(),
            first_bad_ledger_seq: None,
            divergence_kind: None,
        },
        prev_checkpoint: None,
    }
}

fn head_json(head: &LedgerHead) -> String {
    format!("{{\"ledger_seq\":{},\"entry_hash\":\"{}\"}}", head.ledger_seq, head.entry_hash)
}

fn payload_json(p: &AuditCheckpointPayload) -> Vec<u8> {
    let status = &p.device_reported_chain_status;
    let first_bad = match status.first_bad_ledger_seq {
        Some(n) => n.to_string(),
        None => "null".to_string(),
    };
    let kind = match &status.divergence_kind {
        Some(k) => format!("\"{k}\""),
        None => "null".to_string(),
    };
    let prev = match &p.prev_checkpoint {
        Some(prev) => format!(
            "{{\"checkpoint_seq\":{},\"head\":{}}}",
            prev.checkpoint_seq,
            head_json(&prev.head)
        ),
        None => "null".to_string(),
    };
    format!(
        "{{\"checkpoint_schema_version\":{},\"issuer\":\"{}\",\"device_id\":\"{}\",\"checkpoint_seq\":{},\"issued_at\":\"{}\",\"observed_at\":\"{}\",\"head\":{},\"device_reported_chain_status\":{{\"status\":\"{}\",\"first_bad_ledger_seq\":{},\"divergence_kind\":{}}},\"prev_checkpoint\":{}}}",
        p.checkpoint_schema_version,
        p.issuer,
        p.device_id,
        p.checkpoint_seq,
        p.issued_at,
        p.observed_at,
        head_json(&p.head),
        status.status,
        first_bad,
        kind,
        prev
    )
    .into_bytes()
}

fn signature(key_id: &str, key: &SigningKey, domain: &[u8], payload: &[u8]) -> BundleSignature {
    let mut message = domain.to_vec();
    message.extend_from_slice(payload);
    BundleSignature {
        key_id: KeyId(key_id.to_string()),
        algorithm: SignatureAlgorithm::Ed25519,
        signature_b64: B64.encode(key.sign(&message).to_bytes()),
    }
}

fn envelope(key: &SigningKey, payload: &[u8]) -> SignedAuditCheckpoint {
    SignedAuditCheckpoint {
        checkpoint_schema_version: 1,
        payload_b64: B64.encode(payload),
        signatures: vec![signature("k1", key, &AUDIT_CHECKPOINT_SIGNING_DOMAIN, payload)],
    }
}

/// Verifies `bytes` as what `payload` is written as.
fn verify_bytes(
    key: &SigningKey,
    bytes: &[u8],
    payload: Result<AuditCheckpointPayload, String>,
) -> Result<VerifiedAuditCheckpoint, CheckpointRejection> {
    let trusted = trust_store("k1", key);
    let authenticated =
        authenticate_audit_checkpoint(Ok(envelope(key, bytes)), &trusted, now())?;
    assert_eq!(authenticated.payload_bytes(), bytes);
    verify_audit_checkpoint(authenticated, payload)
}

fn verify(
    seed: u8,
    payload: AuditCheckpointPayload,
) -> Result<VerifiedAuditCheckpoint, CheckpointRejection> {
    let bytes = payload_json(&payload);
    verify_bytes(&signing_key(seed), &bytes, Ok(payload))
}

const GOLDEN_PAYLOAD_B64: &str = "eyJjaGVja3BvaW50X3NjaGVtYV92ZXJzaW9uIjoxLCJpc3N1ZXIiOiJmb3JuYXgtY2xvdWQ6N2YzZDFjMmEtOWI0ZS00ZDgwLWExZjYtMmM1ZThkMGIxMjM0IiwiZGV2aWNlX2lkIjoiZDQxZDhjZDktOGYwMC00MjA0LWE5ODAtMDk5OGVjZjg0MjdlIiwiY2hlY2twb2ludF9zZXEiOjEsImlzc3VlZF9hdCI6IjIwMjYtMDktMDNUMTI6MDA6MDVaIiwib2JzZXJ2ZWRfYXQiOiIyMDI2LTA5LTAzVDEyOjAwOjAwWiIsImhlYWQiOnsibGVkZ2VyX3NlcSI6NSwiZW50cnlfaGFzaCI6InNoYTI1NjplOTY3ZDBlMzFlNmFmZDJhM2EwZjViZDgwNWUzOWY4NWViMGVlYjRlMTc2ZTg4ZTBlNjVkM2MyNmExY2JhNDY0In0sImRldmljZV9yZXBvcnRlZF9jaGFpbl9zdGF0dXMiOnsic3RhdHVzIjoidmFsaWQiLCJmaXJzdF9iYWRfbGVkZ2VyX3NlcSI6bnVsbCwiZGl2ZXJnZW5jZV9raW5kIjpudWxsfSwicHJldl9jaGVja3BvaW50IjpudWxsfQ==";

#[test]
fn the_sample_payload_is_written_as_the_golden_vector() {
    let bytes = payload_json(&sample_payload());
    assert_eq!(bytes.len(), 469);
    assert_eq!(B64.encode(&bytes), GOLDEN_PAYLOAD_B64);
}

#[test]
fn golden_vector_verifies_end_to_end_through_verify_audit_checkpoint() {
    let key = signing_key(7);
    let payload_bytes = B64.decode(GOLDEN_PAYLOAD_B64).unwrap();
    let verified = verify_bytes(&key, &payload_bytes, Ok(sample_payload()))
        .expect("golden vector must verify");
    assert_eq!(verified.checkpoint_seq(), 1);
    assert_eq!(verified.head().ledger_seq, 5);
    assert_eq!(verified.device_id(), "d41d8cd9-8f00-4204-a980-0998ecf8427e");
    assert_eq!(verified.issued_at(), "2026-09-03T12:00:05Z");
    assert_eq!(verified.verified_by(), &KeyId("k1".to_string()));
    assert_eq!(verified.payload(), &sample_payload());
}

#[test]
fn checkpoint_domain_matches_adr_0012_literal_bytes() {
    assert_eq!(AUDIT_CHECKPOINT_SIGNING_DOMAIN, *b"fornax-audit-checkpoint/v1\n");
    assert_eq!(AUDIT_CHECKPOINT_SIGNING_DOMAIN.len(), 27);
    assert_eq!(*AUDIT_CHECKPOINT_SIGNING_DOMAIN.last().unwrap(), b'\n');
    assert_ne!(AUDIT_CHECKPOINT_SIGNING_DOMAIN.to_vec(), BUNDLE_SIGNING_DOMAIN.to_vec());
    assert_ne!(AUDIT_CHECKPOINT_SIGNING_DOMAIN.to_vec(), REVOCATION_SIGNING_DOMAIN.to_vec());
}

#[test]
fn domain_confusion_with_revocation_domain_is_rejected() {
    let key = signing_key(9);
    let trusted = trust_store("k1", &key);
    let payload_bytes = payload_json(&sample_payload());
    let wrong = SignedAuditCheckpoint {
        checkpoint_schema_version: 1,
        payload_b64: B64.encode(&payload_bytes),
        signatures: vec![signature("k1", &key, &REVOCATION_SIGNING_DOMAIN, &payload_bytes)],
    };
    let err = authenticate_audit_checkpoint(Ok(wrong), &trusted, now()).unwrap_err();
    assert!(matches!(err, CheckpointRejection::SignatureInvalid { .. }));
}

#[test]
fn flat_head_fields_on_the_response_payload_are_rejected_after_signature_verifies() {
    let key = signing_key(21);
    let flat = r#"{
        "checkpoint_schema_version": 1,
        "issuer": "fornax-cloud:org-1",
        "device_id": "device-1",
        "checkpoint_seq": 1,
        "issued_at": "2026-09-03T12:00:05Z",
        "observed_at": "2026-09-03T12:00:00Z",
        "ledger_seq": 5,
        "entry_hash": "sha256:e967d0e31e6afd2a3a0f5bd805e39f85eb0eeb4e176e88e0e65d3c26a1cba464",
        "device_reported_chain_status": {
            "status": "valid",
            "first_bad_ledger_seq": null,
            "divergence_kind": null
        },
        "prev_checkpoint": null
    }"#;
    let err = verify_bytes(&key, flat.as_bytes(), Ok(sample_payload())).unwrap_err();
    assert!(
        matches!(err, CheckpointRejection::MissingRequiredKey { key: "head" }),
        "a flat, unnested response payload must be rejected as missing the `head` key, got: {err:?}"
    );
}

#[test]
fn uppercase_hex_entry_hash_is_rejected() {
    let mut payload = sample_payload();
    payload.head.entry_hash =
        "sha256:E967D0E31E6AFD2A3A0F5BD805E39F85EB0EEB4E176E88E0E65D3C26A1CBA464".to_string();
    let err = verify(22, payload).unwrap_err();
    assert!(matches!(err, CheckpointRejection::MalformedEntryHash { .. }));
}

#[test]
fn payload_missing_prev_checkpoint_key_entirely_is_rejected() {
    let key = signing_key(23);
    let text = String::from_utf8(payload_json(&sample_payload())).unwrap();
    let without = text.replace(",\"prev_checkpoint\":null", "");
    let err = verify_bytes(&key, without.as_bytes(), Ok(sample_payload())).unwrap_err();
    assert!(matches!(err, CheckpointRejection::MissingRequiredKey { key: "prev_checkpoint" }));
}

#[test]
fn payload_missing_divergence_kind_key_entirely_is_rejected() {
    let key = signing_key(24);
    let text = String::from_utf8(payload_json(&sample_payload())).unwrap();
    let without = text.replace(",\"divergence_kind\":null", "");
    let err = verify_bytes(&key, without.as_bytes(), Ok(sample_payload())).unwrap_err();
    assert!(matches!(err, CheckpointRejection::MissingRequiredKey { key: "divergence_kind" }));
}

#[test]
fn what_does_not_parse_is_a_malformed_payload() {
    let key = signing_key(25);
    let bytes = payload_json(&sample_payload());
    let err = verify_bytes(&key, &bytes, Err("duplicate field `checkpoint_seq`".to_string()))
        .unwrap_err();
    assert_eq!(
        err,
        CheckpointRejection::MalformedPayload {
            detail: "duplicate field `checkpoint_seq`".to_string()
        }
    );
    for (bytes, expected) in [
        ("[]", "payload is not a JSON object"),
        ("null", "payload is not a JSON object"),
    ] {
        let err = verify_bytes(&key, bytes.as_bytes(), Ok(sample_payload())).unwrap_err();
        assert_eq!(err, CheckpointRejection::MalformedPayload { detail: expected.to_string() });
    }
    let err = verify_bytes(&key, b"{", Ok(sample_payload())).unwrap_err();
    let CheckpointRejection::MalformedPayload { detail } = err else {
        panic!("expected MalformedPayload, got {err:?}");
    };
    let expected = serde_json::from_slice::<serde_json::Value>(b"{").unwrap_err().to_string();
    assert_eq!(detail, expected);
    let text = String::from_utf8(bytes).unwrap().replace(
        "{\"status\":\"valid\",\"first_bad_ledger_seq\":null,\"divergence_kind\":null}",
        "\"valid\"",
    );
    let err = verify_bytes(&key, text.as_bytes(), Ok(sample_payload())).unwrap_err();
    assert_eq!(
        err,
        CheckpointRejection::MalformedPayload {
            detail: "device_reported_chain_status is not a JSON object".to_string()
        }
    );
}

#[test]
fn required_keys_are_looked_for_in_order() {
    let outline: Outline = vec![
        ("checkpoint_schema_version".to_string(), None),
        ("head".to_string(), Some(vec![])),
    ];
    assert_eq!(
        check_required_keys(Some(outline)),
        Err(CheckpointRejection::MissingRequiredKey { key: "issuer" })
    );
    let status = vec![
        "status".to_string(),
        "first_bad_ledger_seq".to_string(),
        "divergence_kind".to_string(),
    ];
    let mut full: Outline = [
        "checkpoint_schema_version",
        "issuer",
        "device_id",
        "checkpoint_seq",
        "issued_at",
        "observed_at",
        "head",
        "prev_checkpoint",
    ]
    .iter()
    .map(|k| (k.to_string(), None))
    .collect();
    full.push(("device_reported_chain_status".to_string(), Some(status)));
    assert_eq!(check_required_keys(Some(full)), Ok(()));
}

#[test]
fn malformed_entry_hash_is_rejected() {
    let mut payload = sample_payload();
    payload.head.entry_hash = "SHA256:UPPERCASE".to_string();
    let err = verify(11, payload).unwrap_err();
    assert!(matches!(err, CheckpointRejection::MalformedEntryHash { .. }));
}

#[test]
fn prev_checkpoint_presence_must_match_checkpoint_seq_one() {
    let mut payload = sample_payload();
    payload.checkpoint_seq = 2;
    let err = verify(12, payload.clone()).unwrap_err();
    assert!(matches!(
        err,
        CheckpointRejection::PrevCheckpointPresenceInconsistent { checkpoint_seq: 2 }
    ));
    payload.prev_checkpoint =
        Some(PrevCheckpoint { checkpoint_seq: 1, head: sample_payload().head });
    assert_eq!(verify(12, payload).unwrap().checkpoint_seq(), 2);
}

#[test]
fn diverged_status_without_first_bad_seq_is_rejected() {
    let mut payload = sample_payload();
    payload.device_reported_chain_status.status = "diverged".to_string();
    let err = verify(13, payload.clone()).unwrap_err();
    assert!(matches!(err, CheckpointRejection::ChainStatusInconsistent));
    payload.device_reported_chain_status.first_bad_ledger_seq = Some(3);
    assert_eq!(verify(13, payload.clone()), Err(CheckpointRejection::ChainStatusInconsistent));
    payload.device_reported_chain_status.divergence_kind =
        Some(divergence_kind_wire::MISSING_SEQ.to_string());
    assert!(verify(13, payload.clone()).is_ok());
    payload.device_reported_chain_status.status = "valid".to_string();
    assert_eq!(verify(13, payload.clone()), Err(CheckpointRejection::ChainStatusInconsistent));
    payload.device_reported_chain_status.status = "fine".to_string();
    assert_eq!(
        verify(13, payload),
        Err(CheckpointRejection::UnrecognizedChainStatus { found: "fine".to_string() })
    );
}

#[test]
fn each_structural_check_has_its_own_rejection() {
    let mut p = sample_payload();
    p.checkpoint_schema_version = 2;
    assert_eq!(
        verify(1, p),
        Err(CheckpointRejection::SchemaVersionMismatch { envelope: 1, payload: 2 })
    );
    let mut p = sample_payload();
    p.issued_at = "soon".to_string();
    assert_eq!(
        verify(1, p),
        Err(CheckpointRejection::MalformedTimestamp {
            field: "issued_at",
            value: "soon".to_string()
        })
    );
    let mut p = sample_payload();
    p.observed_at = "2026-09-03".to_string();
    assert_eq!(
        verify(1, p),
        Err(CheckpointRejection::MalformedTimestamp {
            field: "observed_at",
            value: "2026-09-03".to_string()
        })
    );
    let mut p = sample_payload();
    p.issuer = " \u{3000}".to_string();
    assert_eq!(verify(1, p), Err(CheckpointRejection::EmptyIssuer));
    let mut p = sample_payload();
    p.device_id = String::new();
    assert_eq!(verify(1, p), Err(CheckpointRejection::EmptyDeviceId));
    let mut p = sample_payload();
    p.head.ledger_seq = 0;
    assert_eq!(verify(1, p), Err(CheckpointRejection::LedgerSeqBelowOne { found: 0 }));
    let mut p = sample_payload();
    p.checkpoint_seq = 0;
    assert_eq!(verify(1, p), Err(CheckpointRejection::CheckpointSeqBelowOne { found: 0 }));
}

#[test]
fn envelopes_are_refused_before_their_payload_is_looked_at() {
    let key = signing_key(1);
    let trusted = trust_store("k1", &key);
    assert_eq!(
        authenticate_audit_checkpoint(Err("eof".to_string()), &trusted, now()),
        Err(CheckpointRejection::MalformedEnvelope { detail: "eof".to_string() })
    );
    let mut newer = envelope(&key, b"{}");
    newer.checkpoint_schema_version = 2;
    assert_eq!(
        authenticate_audit_checkpoint(Ok(newer), &trusted, now()),
        Err(CheckpointRejection::UnsupportedCheckpointSchemaVersion {
            found: 2,
            supported: vec![1]
        })
    );
    let mut unsigned = envelope(&key, b"{}");
    unsigned.signatures.clear();
    assert_eq!(
        authenticate_audit_checkpoint(Ok(unsigned), &trusted, now()),
        Err(CheckpointRejection::NoSignatures)
    );
    assert_eq!(
        authenticate_audit_checkpoint(Ok(envelope(&key, b"{}")), &trust_store("k2", &key), now()),
        Err(CheckpointRejection::UnknownKeyId { offered: vec![KeyId("k1".to_string())] })
    );
}

#[test]
fn divergence_kinds_are_written_under_their_names() {
    assert_eq!(divergence_kind_wire::HASH_MISMATCH, "hash_mismatch");
    assert_eq!(divergence_kind_wire::MISSING_SEQ, "missing_ledger_seq");
    assert_eq!(divergence_kind_wire::TRUNCATED_TAIL, "truncated_tail");
    assert_eq!(divergence_kind_wire::RELINKED_PREV_HASH, "relinked_prev_hash");
}

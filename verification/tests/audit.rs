use fornax_types::audit::AuditEventWire;
use fornax_types::order::SortedMap;
use fornax_types::{
    validate_audit_event, AuditAction, AuditActor, AuditEvent, AuditEventRejection,
    AuditExportClass, AuditOutcome, AuditRef, AuditRefParseError, AuditTarget, ContentClass, Json,
    AUDIT_SCHEMA_VERSION, SUPPORTED_AUDIT_SCHEMA_VERSIONS,
};

fn sample_event() -> AuditEvent {
    AuditEvent::new(
        "d290f1ee-6c54-4b01-90e6-d701748f0851".to_string(),
        "2026-09-03T14:22:05Z".to_string(),
        AuditActor::Device { actor_id: "device-7e2a1c".to_string() },
        AuditAction::PolicyRevocationIngested,
        AuditTarget::RevocationEntry { target_id: "sha256:ab12".to_string() },
        AuditOutcome::Revoked,
        AuditExportClass::Metadata,
    )
}

fn wire(schema_version: u32, unknown: SortedMap<String, Json>) -> AuditEventWire {
    AuditEventWire {
        schema_version,
        event_id: "e1".to_string(),
        occurred_at: "2026-09-03T14:22:05Z".to_string(),
        actor: AuditActor::System,
        action: AuditAction::PermissionCheck,
        target: AuditTarget::Permission { target_id: "read_findings".to_string() },
        outcome: AuditOutcome::Granted,
        export_class: AuditExportClass::Metadata,
        correlation_id: None,
        attributes: None,
        unknown,
    }
}

#[test]
fn new_event_is_stamped_with_the_current_version_and_nothing_else() {
    let event = sample_event();
    assert_eq!(event.schema_version, AUDIT_SCHEMA_VERSION);
    assert_eq!(event.event_id, "d290f1ee-6c54-4b01-90e6-d701748f0851");
    assert_eq!(event.correlation_id, None);
    assert_eq!(event.attributes, Json::Object(vec![]));
    assert!(event.unknown.is_empty());
    assert!(validate_audit_event(&event).is_ok());
}

#[test]
fn audit_actions_are_written_under_their_tags() {
    let cases = [
        ("permission_check", AuditAction::PermissionCheck),
        ("break_glass_activated", AuditAction::BreakGlassActivated),
        ("policy_bundle_activated", AuditAction::PolicyBundleActivated),
        ("policy_revocation_ingested", AuditAction::PolicyRevocationIngested),
        ("role_assignment_changed", AuditAction::RoleAssignmentChanged),
        ("evidence_purged", AuditAction::EvidencePurged),
        ("compliance_report_generated", AuditAction::ComplianceReportGenerated),
    ];
    for (tag, action) in cases {
        assert_eq!(action.wire_tag(), tag);
    }
}

#[test]
fn audit_outcomes_are_written_under_their_tags() {
    let cases = [
        ("granted", AuditOutcome::Granted),
        ("denied", AuditOutcome::Denied),
        ("granted_via_break_glass", AuditOutcome::GrantedViaBreakGlass),
        ("break_glass_activated", AuditOutcome::BreakGlassActivated),
        ("revoked", AuditOutcome::Revoked),
        ("expired", AuditOutcome::Expired),
    ];
    for (tag, outcome) in cases {
        assert_eq!(outcome.wire_tag(), tag);
    }
}

#[test]
fn audit_export_classes_are_written_under_their_tags() {
    let cases = [
        ("metadata", AuditExportClass::Metadata),
        ("finding_summary", AuditExportClass::FindingSummary),
        ("sensitive_evidence_ref", AuditExportClass::SensitiveEvidenceRef),
        ("raw_content", AuditExportClass::RawContent),
    ];
    for (tag, class) in cases {
        assert_eq!(class.wire_tag(), tag);
    }
}

#[test]
fn unrecognized_tags_are_written_as_they_were() {
    assert_eq!(AuditAction::Unrecognized("quantum_action".to_string()).wire_tag(), "quantum_action");
    assert_eq!(
        AuditOutcome::Unrecognized("quantum_outcome".to_string()).wire_tag(),
        "quantum_outcome"
    );
    assert_eq!(
        AuditExportClass::Unrecognized("quantum_export".to_string()).wire_tag(),
        "quantum_export"
    );
}

#[test]
fn unknown_top_level_field_on_a_supported_schema_version_survives_round_trip() {
    let unknown = SortedMap::new().with(
        "future_correlation_scheme".to_string(),
        Json::Text("v2-trace-id".to_string()),
    );
    let event = AuditEvent::try_from_wire(wire(1, unknown.clone())).unwrap();
    assert_eq!(event.unknown, unknown);
    assert_eq!(event.attributes, Json::Object(vec![]));
    assert_eq!(event.target, AuditTarget::Permission { target_id: "read_findings".to_string() });
}

#[test]
fn audit_truly_incompatible_schema_version_fails_explicitly_rather_than_silently_parsing() {
    let err = AuditEvent::try_from_wire(wire(999, SortedMap::new())).unwrap_err();
    let msg = err.message();
    assert!(
        msg.contains("999") && msg.contains("not supported"),
        "expected an explicit error naming the offending version, got: {msg}"
    );
    assert_eq!(msg, "audit_schema_version 999 is not supported (supported: [1])");
}

#[test]
fn validate_audit_event_rejects_unsupported_schema_version() {
    let mut event = sample_event();
    event.schema_version = 42;
    let err = validate_audit_event(&event).unwrap_err();
    match err {
        AuditEventRejection::UnsupportedSchemaVersion { found, supported } => {
            assert_eq!(found, 42);
            assert_eq!(supported, SUPPORTED_AUDIT_SCHEMA_VERSIONS.to_vec());
        }
    }
}

#[test]
fn audit_export_class_retention_class_and_content_class_share_no_wire_tags() {
    let export_tags = ["metadata", "finding_summary", "sensitive_evidence_ref", "raw_content"];
    let retention_tags =
        ["raw_local", "sanitized_replay_fixture", "aggregated_feature", "derived_finding"];
    let content_tags =
        ["tool_telemetry", "provider_diagnostic", "experimental_signal", "raw_provider_metadata"];

    for tag in export_tags {
        assert!(
            !retention_tags.contains(&tag) && !content_tags.contains(&tag),
            "export-class tag {tag:?} collides with another classification axis"
        );
    }
    for tag in retention_tags {
        assert!(
            !content_tags.contains(&tag),
            "retention-class tag {tag:?} collides with content-class"
        );
    }
    assert_eq!(ContentClass::ToolTelemetry.wire_tag(), content_tags[0]);
    assert_eq!(ContentClass::ProviderDiagnostic.wire_tag(), content_tags[1]);
    assert_eq!(ContentClass::ExperimentalSignal.wire_tag(), content_tags[2]);
    assert_eq!(ContentClass::RawProviderMetadata.wire_tag(), content_tags[3]);
    assert_eq!(AuditExportClass::Metadata.wire_tag(), export_tags[0]);
    assert_eq!(AuditExportClass::FindingSummary.wire_tag(), export_tags[1]);
    assert_eq!(AuditExportClass::SensitiveEvidenceRef.wire_tag(), export_tags[2]);
    assert_eq!(AuditExportClass::RawContent.wire_tag(), export_tags[3]);
}

#[test]
fn unrecognized_export_class_is_treated_as_non_exportable_the_safe_default() {
    let unrecognized = AuditExportClass::Unrecognized("quantum_export".to_string());
    assert!(!unrecognized.is_exportable());
    assert!(!AuditExportClass::RawContent.is_exportable());
    assert!(!AuditExportClass::SensitiveEvidenceRef.is_exportable());
    assert!(AuditExportClass::Metadata.is_exportable());
    assert!(AuditExportClass::FindingSummary.is_exportable());
}

#[test]
fn audit_ref_round_trips_through_parse_and_display() {
    let reference =
        AuditRef::new("horonomy-policy-issuer-1", "d290f1ee-6c54-4b01-90e6-d701748f0851");
    let formatted = reference.to_string();
    assert_eq!(formatted, "horonomy-policy-issuer-1:d290f1ee-6c54-4b01-90e6-d701748f0851");
    let parsed = AuditRef::parse(&formatted).unwrap();
    assert_eq!(parsed, reference);
}

#[test]
fn audit_ref_parse_rejects_missing_separator() {
    let err = AuditRef::parse("no-colon-here").unwrap_err();
    assert!(matches!(err, AuditRefParseError::MissingSeparator { .. }));
}

#[test]
fn audit_ref_parse_rejects_empty_issuer_scope() {
    let err = AuditRef::parse(":event-only").unwrap_err();
    assert!(matches!(err, AuditRefParseError::EmptyIssuerScope { .. }));
}

#[test]
fn audit_ref_parse_rejects_empty_event_id() {
    let err = AuditRef::parse("issuer-only:").unwrap_err();
    assert!(matches!(err, AuditRefParseError::EmptyEventId { .. }));
}

#[test]
fn audit_ref_parse_splits_on_first_colon_only_preserving_the_rest_in_event_id() {
    let parsed = AuditRef::parse("issuer:namespace:event-id").unwrap();
    assert_eq!(parsed.issuer_scope, "issuer");
    assert_eq!(parsed.event_id, "namespace:event-id");
}

#[test]
fn audit_ref_parse_reports_its_input_and_handles_edges() {
    assert_eq!(
        AuditRef::parse(""),
        Err(AuditRefParseError::MissingSeparator { input: String::new() })
    );
    assert_eq!(
        AuditRef::parse(":"),
        Err(AuditRefParseError::EmptyIssuerScope { input: ":".to_string() })
    );
    assert_eq!(
        AuditRef::parse("a:"),
        Err(AuditRefParseError::EmptyEventId { input: "a:".to_string() })
    );
    let parsed = AuditRef::parse("\u{e9}metteur:\u{1f600}").unwrap();
    assert_eq!(parsed, AuditRef::new("\u{e9}metteur", "\u{1f600}"));
    assert_eq!(parsed.to_string(), "\u{e9}metteur:\u{1f600}");
}

use fornax_types::order::SortedSet;
use fornax_types::policy::revision::PolicyRevisionWire;
use fornax_types::policy::{canonical_bytes, digest_of};
use fornax_types::{
    ActionClass, DiagnosticCode, DiagnosticSeverity, EgressContentClass, EnforcementOutcome,
    EnforcementRule, PolicyContent, PolicyDraft, PolicyFieldId, PolicyId, PolicyRevisionBody,
    PublishedPolicyRevision, RedactionProfile, RevisionDigest, RiskClass, RiskClassSeconds,
    SignalClass, Uuid, Verdict, VerdictOutcomes, POLICY_SCHEMA_VERSION,
};
use sha2::{Digest, Sha256};

fn draft(content: PolicyContent) -> PolicyDraft {
    PolicyDraft {
        policy_id: PolicyId(Uuid::from_u128(0xd0)),
        revision: 3,
        supersedes: None,
        display_name: "a \"quoted\" name".to_string(),
        content,
        pinned_fields: SortedSet::new(),
    }
}

fn rule(class: ActionClass) -> EnforcementRule {
    EnforcementRule {
        action_class: class,
        risk_class: RiskClass::High,
        outcomes: VerdictOutcomes::uniform(EnforcementOutcome::Warn),
    }
}

fn full_content() -> PolicyContent {
    let mut content = PolicyContent::default();
    content.collection.longitudinal_aggregation_allowed = Some(false);
    content.egress.cloud_sync_allowed = Some(true);
    content.egress.redaction_profile = Some(RedactionProfile::Strict);
    content.egress.allowed_content = Some(
        SortedSet::new()
            .with(EgressContentClass::Unrecognized("zeta".to_string()))
            .with(EgressContentClass::ClaimText)
            .with(EgressContentClass::FindingVerdicts),
    );
    content.sensors.disabled =
        Some(SortedSet::new().with("beta".to_string()).with("alpha".to_string()));
    content.sensors.required_signals = Some(vec![
        SignalClass::ToolTrace,
        SignalClass::ProcessResult,
        SignalClass::ToolTrace,
    ]);
    content.enforcement.rules = Some(vec![rule(ActionClass::CodeEdit)]);
    content.cache.max_age_seconds_by_risk =
        Some(RiskClassSeconds { low: 4, elevated: 3, high: 2, critical: 1 });
    content.cache.offline_grace_seconds = Some(60);
    content
}

const EMPTY_CONTENT: &str = "{\"collection\":{\"longitudinal_aggregation_allowed\":null},\
\"egress\":{\"cloud_sync_allowed\":null,\"redaction_profile\":null,\"allowed_content\":null},\
\"sensors\":{\"disabled\":null,\"required_signals\":null},\
\"enforcement\":{\"rules\":null},\
\"cache\":{\"max_age_seconds_by_risk\":null,\"offline_grace_seconds\":null}}";

#[test]
fn a_body_without_opinions_has_its_canonical_text() {
    let published = draft(PolicyContent::default())
        .publish("2026-01-01T00:00:00Z".to_string())
        .unwrap();
    let expected = format!(
        "{{\"schema_version\":1,\"policy_id\":\"00000000-0000-0000-0000-0000000000d0\",\
\"revision\":3,\"supersedes\":null,\"published_at\":\"2026-01-01T00:00:00Z\",\
\"display_name\":\"a \\\"quoted\\\" name\",\"content\":{EMPTY_CONTENT},\"pinned_fields\":[]}}"
    );
    assert_eq!(String::from_utf8(canonical_bytes(published.body())).unwrap(), expected);
    let mut hex = String::from("sha256:");
    for byte in Sha256::digest(expected.as_bytes()).iter() {
        hex.push_str(&format!("{byte:02x}"));
    }
    assert_eq!(published.digest().as_str(), hex);
    assert_eq!(&digest_of(published.body()), published.digest());
}

#[test]
fn a_full_body_has_its_canonical_text() {
    let mut d = draft(full_content());
    d.supersedes = Some(RevisionDigest::from_text("sha256:00".to_string()));
    d.display_name = "tab\there".to_string();
    d.pinned_fields = SortedSet::new()
        .with(PolicyFieldId::Unrecognized("future_field".to_string()))
        .with(PolicyFieldId::EnforcementRules)
        .with(PolicyFieldId::EgressCloudSyncAllowed);
    let published = d.publish("t".to_string()).unwrap();
    let expected = "{\"schema_version\":1,\"policy_id\":\"00000000-0000-0000-0000-0000000000d0\",\
\"revision\":3,\"supersedes\":\"sha256:00\",\"published_at\":\"t\",\
\"display_name\":\"tab\\there\",\"content\":{\
\"collection\":{\"longitudinal_aggregation_allowed\":false},\
\"egress\":{\"cloud_sync_allowed\":true,\"redaction_profile\":\"strict\",\
\"allowed_content\":[\"finding_verdicts\",\"claim_text\",\"zeta\"]},\
\"sensors\":{\"disabled\":[\"alpha\",\"beta\"],\
\"required_signals\":[\"process_result\",\"tool_trace\"]},\
\"enforcement\":{\"rules\":[{\"action_class\":\"code_edit\",\"risk_class\":\"high\",\
\"outcomes\":{\"verified\":\"warn\",\"unverified\":\"warn\",\"contradicted\":\"warn\",\
\"review\":\"warn\",\"unavailable\":\"warn\"}}]},\
\"cache\":{\"max_age_seconds_by_risk\":{\"low\":4,\"elevated\":3,\"high\":2,\"critical\":1},\
\"offline_grace_seconds\":60}},\
\"pinned_fields\":[\"egress_cloud_sync_allowed\",\"enforcement_rules\",\"future_field\"]}";
    assert_eq!(String::from_utf8(canonical_bytes(published.body())).unwrap(), expected);
}

#[test]
fn publishing_stamps_the_version_and_keeps_what_was_drafted() {
    let published = draft(full_content()).publish("when".to_string()).unwrap();
    let body = published.body();
    assert_eq!(body.schema_version, POLICY_SCHEMA_VERSION);
    assert_eq!(body.policy_id, PolicyId(Uuid::from_u128(0xd0)));
    assert_eq!(body.revision, 3);
    assert_eq!(body.supersedes, None);
    assert_eq!(body.published_at, "when");
    assert_eq!(body.display_name, "a \"quoted\" name");
    assert_eq!(
        body.content.sensors.required_signals,
        Some(vec![SignalClass::ProcessResult, SignalClass::ToolTrace])
    );
    assert_eq!(body.content.egress, full_content().egress);
    let reference = published.reference();
    assert_eq!(reference.policy_id, body.policy_id);
    assert_eq!(reference.revision, 3);
    assert_eq!(&reference.digest, published.digest());
}

#[test]
fn publishing_ignores_the_order_of_required_signals() {
    let mut shuffled = full_content();
    shuffled.sensors.required_signals =
        Some(vec![SignalClass::ProcessResult, SignalClass::ToolTrace]);
    assert_eq!(
        draft(full_content()).publish("t".to_string()).unwrap(),
        draft(shuffled).publish("t".to_string()).unwrap()
    );
}

#[test]
fn a_published_revision_reads_back() {
    let published = draft(full_content()).publish("t".to_string()).unwrap();
    let wire = PolicyRevisionWire {
        body: published.body().clone(),
        digest: published.digest().clone(),
    };
    assert_eq!(PublishedPolicyRevision::try_from_wire(wire).unwrap(), published);
}

#[test]
fn a_modified_body_is_refused() {
    let published = draft(full_content()).publish("t".to_string()).unwrap();
    let mut body = published.body().clone();
    body.content.egress.cloud_sync_allowed = Some(false);
    let wire = PolicyRevisionWire { body: body.clone(), digest: published.digest().clone() };
    let report = PublishedPolicyRevision::try_from_wire(wire).unwrap_err();
    assert_eq!(report.diagnostics.len(), 1);
    assert_eq!(report.diagnostics[0].code, DiagnosticCode::DigestMismatch);
    assert_eq!(
        report.diagnostics[0].message,
        format!(
            "recomputed digest {} does not match wire digest {}",
            digest_of(&body).as_str(),
            published.digest().as_str()
        )
    );
    assert!(report.has_errors());
}

#[test]
fn an_unsupported_schema_version_is_refused_before_its_digest() {
    let body = PolicyRevisionBody {
        schema_version: 7,
        policy_id: PolicyId(Uuid::from_u128(1)),
        revision: 1,
        supersedes: None,
        published_at: "t".to_string(),
        display_name: "n".to_string(),
        content: PolicyContent::default(),
        pinned_fields: SortedSet::new(),
    };
    let wire = PolicyRevisionWire { body, digest: RevisionDigest::from_text("x".to_string()) };
    let report = PublishedPolicyRevision::try_from_wire(wire).unwrap_err();
    assert_eq!(report.diagnostics[0].code, DiagnosticCode::UnsupportedSchemaVersion);
    assert_eq!(
        report.diagnostics[0].message,
        "schema_version 7 is not supported (supported: [1])"
    );
}

#[test]
fn every_problem_of_a_draft_is_reported_in_order() {
    let mut d = draft(PolicyContent::default());
    d.display_name = " \u{3000}\n".to_string();
    d.content.enforcement.rules = Some(vec![
        rule(ActionClass::ShellCommand),
        rule(ActionClass::CodeEdit),
        rule(ActionClass::ShellCommand),
    ]);
    d.pinned_fields = SortedSet::new()
        .with(PolicyFieldId::SensorsDisabled)
        .with(PolicyFieldId::EnforcementRules)
        .with(PolicyFieldId::Unrecognized("later".to_string()))
        .with(PolicyFieldId::EgressRedactionProfile);
    let report = d.publish("t".to_string()).unwrap_err();
    let codes: Vec<DiagnosticCode> = report.diagnostics.iter().map(|d| d.code).collect();
    assert_eq!(
        codes,
        vec![
            DiagnosticCode::EmptyDisplayName,
            DiagnosticCode::DuplicateActionClassRule,
            DiagnosticCode::UnsortedEnforcementRules,
            DiagnosticCode::PinNamesUnsetField,
            DiagnosticCode::PinNamesUnsetField,
        ]
    );
    assert!(report.diagnostics.iter().all(|d| d.severity == DiagnosticSeverity::Error));
    assert_eq!(
        report.diagnostics[1].message,
        "action_class ShellCommand appears more than once in enforcement.rules"
    );
    assert_eq!(report.diagnostics[2].field, Some(PolicyFieldId::EnforcementRules));
    assert_eq!(
        report.diagnostics[3].message,
        "EgressRedactionProfile is pinned but not set by this revision's content"
    );
    assert_eq!(report.diagnostics[4].field, Some(PolicyFieldId::SensorsDisabled));
}

#[test]
fn unrecognized_action_classes_are_quoted_in_messages() {
    let mut d = draft(PolicyContent::default());
    let class = ActionClass::Unrecognized("warp\"drive".to_string());
    d.content.enforcement.rules = Some(vec![rule(class.clone()), rule(class.clone())]);
    let report = d.publish("t".to_string()).unwrap_err();
    assert_eq!(
        report.diagnostics[0].message,
        format!("action_class {class:?} appears more than once in enforcement.rules")
    );
    assert_eq!(
        report.diagnostics[0].message,
        "action_class Unrecognized(\"warp\\\"drive\") appears more than once in enforcement.rules"
    );
}

#[test]
fn action_classes_are_ordered_as_declared_and_unknown_ones_by_name() {
    let mut d = draft(PolicyContent::default());
    d.content.enforcement.rules = Some(vec![
        rule(ActionClass::CodeEdit),
        rule(ActionClass::DataEgress),
        rule(ActionClass::Unrecognized("a".to_string())),
        rule(ActionClass::Unrecognized("b".to_string())),
    ]);
    assert!(d.publish("t".to_string()).is_ok());
}

#[test]
fn verdict_outcomes_are_read_per_verdict_and_met_componentwise() {
    let a = VerdictOutcomes {
        verified: EnforcementOutcome::Allow,
        unverified: EnforcementOutcome::Warn,
        contradicted: EnforcementOutcome::Block,
        review: EnforcementOutcome::ObserveOnly,
        unavailable: EnforcementOutcome::Allow,
    };
    assert_eq!(a.for_verdict(Verdict::Verified), EnforcementOutcome::Allow);
    assert_eq!(a.for_verdict(Verdict::Unverified), EnforcementOutcome::Warn);
    assert_eq!(a.for_verdict(Verdict::Contradicted), EnforcementOutcome::Block);
    assert_eq!(a.for_verdict(Verdict::Review), EnforcementOutcome::ObserveOnly);
    assert_eq!(a.for_verdict(Verdict::Unavailable), EnforcementOutcome::Allow);
    let met = VerdictOutcomes::meet(a, VerdictOutcomes::uniform(EnforcementOutcome::ObserveOnly));
    assert_eq!(
        met,
        VerdictOutcomes {
            verified: EnforcementOutcome::ObserveOnly,
            unverified: EnforcementOutcome::Warn,
            contradicted: EnforcementOutcome::Block,
            review: EnforcementOutcome::ObserveOnly,
            unavailable: EnforcementOutcome::ObserveOnly,
        }
    );
}

#[test]
fn the_baseline_is_the_conservative_one() {
    let b = PolicyContent::baseline();
    assert!(!b.longitudinal_aggregation_allowed);
    assert!(!b.cloud_sync_allowed);
    assert_eq!(b.redaction_profile, RedactionProfile::Standard);
    assert!(b.allowed_content.is_empty());
    assert!(b.sensors_disabled.is_empty());
    assert!(b.sensors_required_signals.is_empty());
    assert!(b.enforcement_rules.is_empty());
    assert_eq!(
        b.cache_max_age_seconds_by_risk,
        RiskClassSeconds { low: 86_400, elevated: 21_600, high: 3_600, critical: 900 }
    );
    assert_eq!(b.cache_offline_grace_seconds, 604_800);
}

use fornax_types::order::{SortedMap, SortedSet};
use fornax_types::policy::field::{is_at_least_as_strict, meet_field, FieldValue};
use fornax_types::{
    resolve, ActionClass, BoundRevision, CapabilitySignal, DeviceContext, DiagnosticCode,
    DiagnosticSeverity, EgressContentClass, EnforcementOutcome, EnforcementRule, FieldProvenance,
    OsFamily, PolicyBinding, PolicyContent, PolicyDraft, PolicyFieldId, PolicyId, Provider,
    PublishedPolicyRevision, RedactionProfile, ResolvedPolicy, RevisionDigest, RiskClass,
    RiskClassSeconds, RuntimeCapabilities, SignalAvailability, SignalClass, TargetLevel,
    TargetScope, TargetSelector, Uuid, VerdictOutcomes, CAPABILITY_SCHEMA_VERSION,
};

fn set(names: &[&str]) -> SortedSet<String> {
    let mut s = SortedSet::new();
    for n in names {
        s = s.with(n.to_string());
    }
    s
}

fn ctx() -> DeviceContext {
    DeviceContext {
        org_id: Some("org-1".to_string()),
        team_ids: set(&["team-1"]),
        project_ids: set(&["proj-1"]),
        device_id: "device-1".to_string(),
        provider: Provider::ClaudeCode,
        capabilities: RuntimeCapabilities {
            schema_version: CAPABILITY_SCHEMA_VERSION,
            provider: Provider::ClaudeCode,
            signals: vec![CapabilitySignal {
                class: SignalClass::ToolTrace,
                state: SignalAvailability::Available,
                detail: None,
            }],
            notes: SortedMap::new(),
        },
        os_family: OsFamily::Linux,
    }
}

fn org() -> TargetScope {
    TargetScope::Org { org_id: "org-1".to_string() }
}

fn team() -> TargetScope {
    TargetScope::Team { org_id: "org-1".to_string(), team_id: "team-1".to_string() }
}

fn project() -> TargetScope {
    TargetScope::Project { org_id: "org-1".to_string(), project_id: "proj-1".to_string() }
}

fn device() -> TargetScope {
    TargetScope::Device { device_id: "device-1".to_string() }
}

fn published(id: u128, content: PolicyContent, pins: &[PolicyFieldId]) -> PublishedPolicyRevision {
    let mut pinned_fields = SortedSet::new();
    for p in pins {
        pinned_fields = pinned_fields.with(p.clone());
    }
    PolicyDraft {
        policy_id: PolicyId(Uuid::from_u128(id)),
        revision: 1,
        supersedes: None,
        display_name: "policy".to_string(),
        content,
        pinned_fields,
    }
    .publish("2026-01-01T00:00:00Z".to_string())
    .unwrap()
}

fn bind_with(
    id: u128,
    scope: TargetScope,
    selector: TargetSelector,
    content: PolicyContent,
    pins: &[PolicyFieldId],
) -> BoundRevision {
    let revision = published(id, content, pins);
    let binding = PolicyBinding {
        binding_id: Uuid::from_u128(id),
        scope,
        selector,
        revision_ref: revision.reference(),
    };
    BoundRevision::new(binding, revision).unwrap()
}

fn bind(id: u128, scope: TargetScope, content: PolicyContent) -> BoundRevision {
    bind_with(id, scope, TargetSelector::default(), content, &[])
}

fn sync(allowed: bool) -> PolicyContent {
    let mut c = PolicyContent::default();
    c.egress.cloud_sync_allowed = Some(allowed);
    c
}

fn disabled(names: &[&str]) -> PolicyContent {
    let mut c = PolicyContent::default();
    c.sensors.disabled = Some(set(names));
    c
}

fn rules(list: Vec<EnforcementRule>) -> PolicyContent {
    let mut c = PolicyContent::default();
    c.enforcement.rules = Some(list);
    c
}

fn rule(class: ActionClass, risk: RiskClass, outcome: EnforcementOutcome) -> EnforcementRule {
    EnforcementRule {
        action_class: class,
        risk_class: risk,
        outcomes: VerdictOutcomes::uniform(outcome),
    }
}

fn provenance_of(p: &ResolvedPolicy, field: PolicyFieldId) -> FieldProvenance {
    p.provenance.iter().find(|(f, _)| *f == field).unwrap().1.clone()
}

#[test]
fn nothing_applicable_resolves_to_the_baseline() {
    let elsewhere = bind(1, TargetScope::Org { org_id: "other".to_string() }, sync(true));
    for bound in [vec![], vec![elsewhere]] {
        let (policy, diagnostics) = resolve(&bound, &ctx());
        assert_eq!(policy.values, PolicyContent::baseline());
        assert!(policy.contributing.is_empty());
        assert_eq!(policy.provenance.len(), 9);
        assert!(policy.provenance.iter().all(|(_, p)| *p == FieldProvenance::Baseline));
        assert_eq!(diagnostics.len(), 1);
        assert_eq!(diagnostics[0].code, DiagnosticCode::NoApplicablePolicy);
        assert_eq!(diagnostics[0].severity, DiagnosticSeverity::Info);
    }
}

#[test]
fn the_most_specific_level_wins() {
    let bound = vec![
        bind(1, org(), sync(true)),
        bind(2, team(), sync(false)),
        bind(3, project(), sync(true)),
        bind(4, device(), sync(false)),
    ];
    let (policy, diagnostics) = resolve(&bound, &ctx());
    assert!(diagnostics.is_empty());
    assert!(!policy.values.cloud_sync_allowed);
    let (policy, _) = resolve(&bound[..3], &ctx());
    assert!(policy.values.cloud_sync_allowed);
    assert_eq!(
        provenance_of(&policy, PolicyFieldId::EgressCloudSyncAllowed),
        FieldProvenance::Layer {
            level: TargetLevel::Project,
            binding_id: Uuid::from_u128(3),
            revision: bound[2].revision().reference(),
        }
    );
    assert_eq!(
        policy.contributing,
        vec![
            bound[0].revision().reference(),
            bound[1].revision().reference(),
            bound[2].revision().reference()
        ]
    );
}

#[test]
fn a_pinned_field_is_never_loosened_below_its_level() {
    let pin = bind_with(
        1,
        org(),
        TargetSelector::default(),
        sync(false),
        &[PolicyFieldId::EgressCloudSyncAllowed],
    );
    let loose = bind(2, device(), sync(true));
    let (policy, diagnostics) = resolve(&[loose.clone(), pin.clone()], &ctx());
    assert!(!policy.values.cloud_sync_allowed);
    assert_eq!(
        provenance_of(&policy, PolicyFieldId::EgressCloudSyncAllowed),
        FieldProvenance::Pinned {
            level: TargetLevel::Org,
            binding_id: Uuid::from_u128(1),
            revision: pin.revision().reference(),
        }
    );
    assert_eq!(diagnostics.len(), 1);
    assert_eq!(diagnostics[0].code, DiagnosticCode::PinViolation);
    assert_eq!(
        diagnostics[0].message,
        "EgressCloudSyncAllowed pinned at Some(Org) cannot be loosened at Device"
    );
    assert_eq!(diagnostics[0].bindings, vec![Uuid::from_u128(2)]);
    assert_eq!(diagnostics[0].revisions, vec![loose.revision().reference()]);
}

#[test]
fn a_revision_whose_value_a_pin_refused_does_not_contribute() {
    let pin = bind_with(
        1,
        device(),
        TargetSelector::default(),
        sync(false),
        &[PolicyFieldId::EgressCloudSyncAllowed],
    );
    let refused = bind(2, TargetScope::LocalUser, sync(true));
    let (policy, diagnostics) = resolve(&[pin.clone(), refused], &ctx());
    assert!(!policy.values.cloud_sync_allowed);
    assert_eq!(policy.contributing, vec![pin.revision().reference()]);
    assert_eq!(diagnostics.len(), 1);
    assert_eq!(diagnostics[0].code, DiagnosticCode::PinViolation);

    let mut partly = sync(true);
    partly.sensors.disabled = Some(set(&["s"]));
    let heard = bind(3, TargetScope::LocalUser, partly);
    let (policy, _) = resolve(&[pin.clone(), heard.clone()], &ctx());
    assert_eq!(
        policy.contributing,
        vec![pin.revision().reference(), heard.revision().reference()]
    );
}

#[test]
fn each_level_that_would_loosen_a_pin_is_reported_once() {
    let pin = bind_with(
        1,
        org(),
        TargetSelector::default(),
        sync(false),
        &[PolicyFieldId::EgressCloudSyncAllowed],
    );
    let bound = [
        pin,
        bind(2, team(), sync(true)),
        bind(3, project(), sync(false)),
        bind(4, device(), sync(true)),
        bind(5, device(), sync(true)),
    ];
    let (_, diagnostics) = resolve(&bound, &ctx());
    let levels: Vec<String> = diagnostics
        .iter()
        .filter(|d| d.code == DiagnosticCode::PinViolation)
        .map(|d| d.message.clone())
        .collect();
    assert_eq!(
        levels,
        vec![
            "EgressCloudSyncAllowed pinned at Some(Org) cannot be loosened at Team".to_string(),
            "EgressCloudSyncAllowed pinned at Some(Org) cannot be loosened at Device".to_string(),
        ]
    );
}

fn code_edit(outcome: EnforcementOutcome) -> EnforcementRule {
    rule(ActionClass::CodeEdit, RiskClass::Low, outcome)
}

#[test]
fn strictness_and_the_common_value_agree() {
    let fetch = rule(ActionClass::NetworkFetch, RiskClass::High, EnforcementOutcome::Allow);
    let values = [
        FieldValue::EnforcementRules(vec![]),
        FieldValue::EnforcementRules(vec![code_edit(EnforcementOutcome::Warn)]),
        FieldValue::EnforcementRules(vec![code_edit(EnforcementOutcome::Block)]),
        FieldValue::EnforcementRules(vec![code_edit(EnforcementOutcome::Warn), fetch.clone()]),
        FieldValue::EnforcementRules(vec![fetch]),
    ];
    for a in &values {
        assert_eq!(meet_field(a, a), *a);
        for b in &values {
            let m = meet_field(a, b);
            assert_eq!(m, meet_field(b, a));
            assert_eq!(is_at_least_as_strict(a, b), m == *a);
            for c in &values {
                assert_eq!(meet_field(a, &meet_field(b, c)), meet_field(&m, c));
                if is_at_least_as_strict(c, a) && is_at_least_as_strict(c, b) {
                    assert!(is_at_least_as_strict(c, &m));
                }
            }
        }
    }
    assert!(!is_at_least_as_strict(&values[4], &values[1]));
    assert!(is_at_least_as_strict(&values[3], &values[1]));
    let signals = |list: Vec<SignalClass>| FieldValue::RequiredSignals(list);
    let one = signals(vec![SignalClass::ProcessResult]);
    let other = signals(vec![SignalClass::ToolTrace]);
    let both = signals(vec![SignalClass::ProcessResult, SignalClass::ToolTrace]);
    assert_eq!(meet_field(&other, &one), both);
    assert_eq!(meet_field(&one, &other), both);
}

#[test]
fn a_pinned_field_may_be_tightened() {
    let pin = bind_with(
        1,
        org(),
        TargetSelector::default(),
        sync(true),
        &[PolicyFieldId::EgressCloudSyncAllowed],
    );
    let (policy, diagnostics) = resolve(&[pin, bind(2, device(), sync(false))], &ctx());
    assert!(diagnostics.is_empty());
    assert!(!policy.values.cloud_sync_allowed);
}

#[test]
fn resolution_ignores_the_order_of_the_bindings() {
    let pinned = bind_with(
        4,
        team(),
        TargetSelector::default(),
        sync(false),
        &[PolicyFieldId::EgressCloudSyncAllowed],
    );
    let bound = vec![
        bind(1, org(), sync(true)),
        bind(2, org(), disabled(&["a"])),
        bind(3, org(), sync(false)),
        pinned,
        bind(5, device(), sync(true)),
        bind(6, device(), disabled(&["b"])),
    ];
    let expected = resolve(&bound, &ctx());
    for shift in 1..bound.len() {
        let mut rotated = bound.clone();
        rotated.rotate_left(shift);
        assert_eq!(resolve(&rotated, &ctx()), expected);
        rotated.reverse();
        assert_eq!(resolve(&rotated, &ctx()), expected);
    }
}

#[test]
fn resolution_ignores_the_order_of_bindings_that_share_an_identifier() {
    let share = |content: PolicyContent, scope: TargetScope| {
        let revision = published(40, content, &[]);
        let binding = PolicyBinding {
            binding_id: Uuid::from_u128(7),
            scope,
            selector: TargetSelector::default(),
            revision_ref: revision.reference(),
        };
        BoundRevision::new(binding, revision).unwrap()
    };
    let bound = vec![
        share(sync(true), org()),
        share(sync(false), org()),
        share(disabled(&["a", "b"]), org()),
        share(disabled(&["ab"]), org()),
        share(sync(true), device()),
    ];
    let expected = resolve(&bound, &ctx());
    assert_eq!(expected.1.len(), 2);
    for shift in 1..bound.len() {
        let mut rotated = bound.clone();
        rotated.rotate_left(shift);
        assert_eq!(resolve(&rotated, &ctx()), expected);
        rotated.reverse();
        assert_eq!(resolve(&rotated, &ctx()), expected);
    }
}

#[test]
fn a_required_signal_the_device_cannot_expose_is_reported() {
    let mut content = PolicyContent::default();
    content.sensors.required_signals = Some(vec![
        SignalClass::ToolTrace,
        SignalClass::RawReasoning,
        SignalClass::ProcessResult,
    ]);
    let mut limited = ctx();
    limited.capabilities.signals.push(CapabilitySignal {
        class: SignalClass::RawReasoning,
        state: SignalAvailability::Unsupported,
        detail: None,
    });
    let bound = [bind(1, org(), content)];
    let (policy, diagnostics) = resolve(&bound, &limited);
    assert_eq!(policy.values.sensors_required_signals.len(), 3);
    assert_eq!(diagnostics.len(), 1);
    assert_eq!(diagnostics[0].code, DiagnosticCode::RequiredSignalUnavailable);
    assert_eq!(diagnostics[0].severity, DiagnosticSeverity::Warning);
    assert_eq!(diagnostics[0].field, Some(PolicyFieldId::SensorsRequiredSignals));
    assert_eq!(
        diagnostics[0].message,
        "policy requires signal RawReasoning, which this device reports as unsupported"
    );
    assert!(resolve(&bound, &ctx()).1.is_empty());
}

#[test]
fn conflicting_bindings_of_a_level_take_the_strictest_value() {
    let bound = vec![bind(7, org(), sync(true)), bind(3, org(), sync(false))];
    let (policy, diagnostics) = resolve(&bound, &ctx());
    assert!(!policy.values.cloud_sync_allowed);
    assert_eq!(diagnostics.len(), 1);
    assert_eq!(diagnostics[0].code, DiagnosticCode::ConflictingBindingsAtLevel);
    assert_eq!(
        diagnostics[0].message,
        "multiple bindings at Org set EgressCloudSyncAllowed to differing values"
    );
    assert_eq!(diagnostics[0].field, Some(PolicyFieldId::EgressCloudSyncAllowed));
    assert_eq!(diagnostics[0].bindings, vec![Uuid::from_u128(3), Uuid::from_u128(7)]);
    assert_eq!(
        provenance_of(&policy, PolicyFieldId::EgressCloudSyncAllowed),
        FieldProvenance::Layer {
            level: TargetLevel::Org,
            binding_id: Uuid::from_u128(3),
            revision: bound[1].revision().reference(),
        }
    );
    let agreeing = vec![bind(7, org(), sync(true)), bind(3, org(), sync(true))];
    assert!(resolve(&agreeing, &ctx()).1.is_empty());
}

#[test]
fn disabled_sensors_and_required_signals_accumulate() {
    let mut needs_trace = disabled(&["b"]);
    needs_trace.sensors.required_signals = Some(vec![SignalClass::ToolTrace]);
    let mut needs_process = PolicyContent::default();
    needs_process.sensors.required_signals = Some(vec![SignalClass::ProcessResult]);
    let bound = vec![
        bind(1, org(), needs_trace),
        bind(2, team(), disabled(&["a"])),
        bind(3, device(), needs_process),
    ];
    let (policy, _) = resolve(&bound, &ctx());
    assert_eq!(policy.values.sensors_disabled, set(&["a", "b"]));
    assert_eq!(
        policy.values.sensors_required_signals,
        vec![SignalClass::ProcessResult, SignalClass::ToolTrace]
    );
}

#[test]
fn each_field_is_met_toward_strictness() {
    let mut a = PolicyContent::default();
    a.collection.longitudinal_aggregation_allowed = Some(true);
    a.egress.redaction_profile = Some(RedactionProfile::Standard);
    a.egress.allowed_content = Some(
        SortedSet::new().with(EgressContentClass::ClaimText).with(EgressContentClass::FindingVerdicts),
    );
    a.enforcement.rules = Some(vec![
        rule(ActionClass::CodeEdit, RiskClass::Low, EnforcementOutcome::Warn),
        rule(ActionClass::NetworkFetch, RiskClass::High, EnforcementOutcome::Allow),
    ]);
    a.cache.max_age_seconds_by_risk =
        Some(RiskClassSeconds { low: 10, elevated: 20, high: 5, critical: 1 });
    a.cache.offline_grace_seconds = Some(100);
    let mut b = PolicyContent::default();
    b.collection.longitudinal_aggregation_allowed = Some(false);
    b.egress.redaction_profile = Some(RedactionProfile::Strict);
    b.egress.allowed_content = Some(SortedSet::new().with(EgressContentClass::ClaimText));
    b.enforcement.rules =
        Some(vec![rule(ActionClass::CodeEdit, RiskClass::Elevated, EnforcementOutcome::Allow)]);
    b.cache.max_age_seconds_by_risk =
        Some(RiskClassSeconds { low: 20, elevated: 10, high: 6, critical: 0 });
    b.cache.offline_grace_seconds = Some(50);
    let (policy, diagnostics) = resolve(&[bind(1, org(), a), bind(2, org(), b)], &ctx());
    let v = policy.values;
    assert!(!v.longitudinal_aggregation_allowed);
    assert_eq!(v.redaction_profile, RedactionProfile::Strict);
    assert_eq!(v.allowed_content, SortedSet::new().with(EgressContentClass::ClaimText));
    assert_eq!(
        v.enforcement_rules,
        vec![
            rule(ActionClass::CodeEdit, RiskClass::Elevated, EnforcementOutcome::Warn),
            rule(ActionClass::NetworkFetch, RiskClass::High, EnforcementOutcome::Allow),
        ]
    );
    assert_eq!(
        v.cache_max_age_seconds_by_risk,
        RiskClassSeconds { low: 10, elevated: 10, high: 5, critical: 0 }
    );
    assert_eq!(v.cache_offline_grace_seconds, 50);
    assert_eq!(diagnostics.len(), 6);
}

#[test]
fn enforcement_rules_are_replaced_by_a_more_specific_level() {
    let bound = vec![
        bind(
            1,
            org(),
            rules(vec![rule(ActionClass::CodeEdit, RiskClass::High, EnforcementOutcome::Block)]),
        ),
        bind(
            2,
            project(),
            rules(vec![rule(ActionClass::DataEgress, RiskClass::Low, EnforcementOutcome::Allow)]),
        ),
    ];
    let (policy, _) = resolve(&bound, &ctx());
    assert_eq!(
        policy.values.enforcement_rules,
        vec![rule(ActionClass::DataEgress, RiskClass::Low, EnforcementOutcome::Allow)]
    );
}

#[test]
fn scopes_match_their_own_place_only() {
    let other_team =
        TargetScope::Team { org_id: "org-1".to_string(), team_id: "team-2".to_string() };
    let foreign_team =
        TargetScope::Team { org_id: "org-2".to_string(), team_id: "team-1".to_string() };
    let other_device = TargetScope::Device { device_id: "device-2".to_string() };
    for scope in [other_team, foreign_team, other_device] {
        let (_, diagnostics) = resolve(&[bind(1, scope, sync(true))], &ctx());
        assert_eq!(diagnostics[0].code, DiagnosticCode::NoApplicablePolicy);
    }
    for scope in [org(), team(), project(), device(), TargetScope::LocalUser] {
        let (policy, _) = resolve(&[bind(1, scope, sync(true))], &ctx());
        assert!(policy.values.cloud_sync_allowed);
    }
    let mut homeless = ctx();
    homeless.org_id = None;
    let (_, diagnostics) = resolve(&[bind(1, org(), sync(true))], &homeless);
    assert_eq!(diagnostics[0].code, DiagnosticCode::NoApplicablePolicy);
}

#[test]
fn selectors_narrow_a_binding() {
    let providers = TargetSelector {
        providers: Some(vec![Provider::Codex]),
        os_families: None,
        requires_signals: None,
    };
    let (_, d) = resolve(&[bind_with(1, org(), providers, sync(true), &[])], &ctx());
    assert_eq!(d[0].code, DiagnosticCode::NoApplicablePolicy);

    let os = TargetSelector {
        providers: Some(vec![Provider::ClaudeCode]),
        os_families: Some(SortedSet::new().with(OsFamily::MacOs)),
        requires_signals: None,
    };
    let (_, d) = resolve(&[bind_with(1, org(), os, sync(true), &[])], &ctx());
    assert_eq!(d[0].code, DiagnosticCode::NoApplicablePolicy);

    let available = TargetSelector {
        providers: None,
        os_families: Some(SortedSet::new().with(OsFamily::Linux)),
        requires_signals: Some(vec![SignalClass::ToolTrace]),
    };
    let (p, d) = resolve(&[bind_with(1, org(), available, sync(true), &[])], &ctx());
    assert!(d.is_empty());
    assert!(p.values.cloud_sync_allowed);
}

#[test]
fn an_unavailable_signal_drops_the_binding_with_a_warning() {
    let needs = TargetSelector {
        providers: None,
        os_families: None,
        requires_signals: Some(vec![SignalClass::ToolTrace, SignalClass::ProcessResult]),
    };
    let (p, d) = resolve(&[bind_with(9, org(), needs, sync(true), &[])], &ctx());
    assert!(!p.values.cloud_sync_allowed);
    assert_eq!(d.len(), 2);
    assert_eq!(d[0].code, DiagnosticCode::RequiredSignalUnavailable);
    assert_eq!(d[0].severity, DiagnosticSeverity::Warning);
    assert_eq!(
        d[0].message,
        "binding requires signal ProcessResult, which this device does not report as available"
    );
    assert_eq!(d[0].bindings, vec![Uuid::from_u128(9)]);
    assert_eq!(d[1].code, DiagnosticCode::NoApplicablePolicy);
}

#[test]
fn an_unknown_selector_value_applies_the_binding_with_a_warning() {
    let newer = TargetSelector {
        providers: None,
        os_families: Some(SortedSet::new().with(OsFamily::Unrecognized("plan9".to_string()))),
        requires_signals: Some(vec![SignalClass::Unrecognized("aura".to_string())]),
    };
    let (p, d) = resolve(&[bind_with(9, org(), newer, sync(true), &[])], &ctx());
    assert!(p.values.cloud_sync_allowed);
    assert_eq!(d.len(), 1);
    assert_eq!(d[0].code, DiagnosticCode::SelectorNotUnderstood);
}

#[test]
fn bindings_join_only_the_revision_they_name() {
    let revision = published(1, sync(true), &[]);
    let mut reference = revision.reference();
    reference.digest = RevisionDigest::from_text("sha256:other".to_string());
    let binding = PolicyBinding {
        binding_id: Uuid::from_u128(5),
        scope: org(),
        selector: TargetSelector::default(),
        revision_ref: reference,
    };
    let report = BoundRevision::new(binding, revision).unwrap_err();
    assert_eq!(report.diagnostics[0].code, DiagnosticCode::DigestMismatch);
    assert_eq!(report.diagnostics[0].bindings, vec![Uuid::from_u128(5)]);

    let pinned = published(1, sync(true), &[PolicyFieldId::EgressCloudSyncAllowed]);
    let binding = PolicyBinding {
        binding_id: Uuid::from_u128(5),
        scope: TargetScope::LocalUser,
        selector: TargetSelector::default(),
        revision_ref: pinned.reference(),
    };
    let report = BoundRevision::new(binding, pinned).unwrap_err();
    assert_eq!(report.diagnostics[0].code, DiagnosticCode::PinAtLocalUserLayer);
}

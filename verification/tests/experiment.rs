use fornax_types::experiment::ExperimentSpecWire;
use fornax_types::order::SortedMap;
use fornax_types::{
    Baseline, CompletedExperiment, EvidenceRelation, ExpectedObservation, ExperimentKind,
    ExperimentOutcome, ExperimentProvenance, ExperimentSpec, Hypothesis, Intervention, Json,
    SideEffectAllowList, SideEffectClass, SignalClass, StopCondition, Uuid,
    EXPERIMENT_SCHEMA_VERSION, SUPPORTED_EXPERIMENT_SCHEMA_VERSIONS,
};

fn id(n: u128) -> Uuid {
    Uuid::from_u128(n)
}

fn hypothesis() -> Hypothesis {
    Hypothesis {
        claim_id: id(1),
        expected_observations: vec![ExpectedObservation {
            signal_class: SignalClass::ProcessResult,
            description: "exit code changes after reverting the file".into(),
        }],
        narrative: Some("if the file caused the failure, reverting it fixes it".into()),
    }
}

fn baseline() -> Baseline {
    Baseline { description: "file at HEAD before intervention".into(), evidence_ids: vec![id(2)] }
}

fn intervention() -> Intervention {
    Intervention {
        kind: ExperimentKind::RevertFileToBaseline,
        description: "revert src/main.rs to baseline".into(),
        params: Json::Object(vec![(
            "path".to_string(),
            Json::Text("src/main.rs".to_string()),
        )]),
        provider_extension: None,
    }
}

fn provenance() -> ExperimentProvenance {
    ExperimentProvenance {
        created_at: "2026-01-01T00:00:00Z".into(),
        created_by: "test-harness".into(),
        environment: "worktree:fornax-FORNX-99-counterfactual".into(),
        tool_version: "fornax-cli-0.0.4".into(),
        runtime_versions: SortedMap::new()
            .with("rustc".to_string(), "1.82.0".to_string()),
    }
}

fn spec() -> ExperimentSpec {
    ExperimentSpec::new(
        id(3),
        1,
        "s1".to_string(),
        hypothesis(),
        baseline(),
        intervention(),
        vec![StopCondition::TimeoutElapsed { max_seconds: 60 }],
        SideEffectAllowList::new(vec![SideEffectClass::EphemeralWorktreeMutation]),
        provenance(),
    )
}

fn wire_of(s: ExperimentSpec) -> ExperimentSpecWire {
    ExperimentSpecWire {
        schema_version: s.schema_version,
        id: s.id,
        version: s.version,
        session_id: s.session_id,
        hypothesis: s.hypothesis,
        preconditions: s.preconditions,
        baseline: s.baseline,
        intervention: s.intervention,
        stop_conditions: s.stop_conditions,
        allowed_side_effects: Some(s.allowed_side_effects.classes().clone()),
        provenance: s.provenance,
        extension: s.extension,
        unknown: s.unknown,
    }
}

#[test]
fn a_supported_wire_form_reads_back_the_specification() {
    assert_eq!(ExperimentSpec::try_from_wire(wire_of(spec())), Ok(spec()));
}

#[test]
fn experiment_spec_new_stamps_current_schema_version_and_empty_unknown() {
    let s = spec();
    assert_eq!(s.schema_version, EXPERIMENT_SCHEMA_VERSION);
    assert!(s.unknown.is_empty());
    assert!(s.extension.is_none());
    assert!(s.preconditions.is_empty());
    assert!(SUPPORTED_EXPERIMENT_SCHEMA_VERSIONS.contains(&EXPERIMENT_SCHEMA_VERSION));
}

#[test]
fn experiment_unknown_top_level_field_on_a_compatible_version_survives_round_trip() {
    let mut wire = wire_of(spec());
    let unknown =
        SortedMap::new().with("future_field".to_string(), Json::Text("noise".to_string()));
    wire.unknown = unknown.clone();
    let parsed = ExperimentSpec::try_from_wire(wire).unwrap();
    assert_eq!(parsed.unknown, unknown);
}

#[test]
fn experiment_truly_incompatible_schema_version_fails_explicitly_rather_than_silently_parsing() {
    let mut wire = wire_of(spec());
    wire.schema_version = 999;
    let err = ExperimentSpec::try_from_wire(wire).unwrap_err();
    assert!(
        err.contains("incompatible"),
        "expected an explicit incompatibility error, got: {err}"
    );
    assert_eq!(
        err,
        "incompatible ExperimentSpec schema_version 999: this binary supports [1]"
    );
}

#[test]
fn default_side_effect_allow_list_permits_nothing() {
    let list = SideEffectAllowList::default();
    assert!(list.is_read_only());
    for class in [
        SideEffectClass::EphemeralWorktreeMutation,
        SideEffectClass::ProcessSpawn,
        SideEffectClass::NetworkCall,
        SideEffectClass::FilesystemWriteOutsideWorktree,
    ] {
        assert!(!list.permits(class));
    }
}

#[test]
fn wire_payload_omitting_allowed_side_effects_deserializes_to_deny_by_default() {
    let mut wire = wire_of(spec());
    wire.allowed_side_effects = None;
    let parsed = ExperimentSpec::try_from_wire(wire).unwrap();
    assert!(parsed.allowed_side_effects.is_read_only());
}

#[test]
fn explicit_allow_list_only_permits_named_classes() {
    let list = SideEffectAllowList::new(vec![SideEffectClass::ProcessSpawn]);
    assert!(list.permits(SideEffectClass::ProcessSpawn));
    assert!(!list.permits(SideEffectClass::NetworkCall));
    assert!(!list.is_read_only());
}

#[test]
fn allow_lists_are_canonical_whatever_order_they_were_built_in() {
    let a = SideEffectAllowList::new(vec![
        SideEffectClass::NetworkCall,
        SideEffectClass::ProcessSpawn,
        SideEffectClass::NetworkCall,
    ]);
    let b =
        SideEffectAllowList::new(vec![SideEffectClass::ProcessSpawn, SideEffectClass::NetworkCall]);
    assert_eq!(a, b);
    assert_eq!(a.classes(), &[SideEffectClass::ProcessSpawn, SideEffectClass::NetworkCall]);
}

#[test]
fn only_completed_outcome_carries_a_hypothesis_relation() {
    let completed = ExperimentOutcome::Completed(
        CompletedExperiment::new(
            id(1),
            EvidenceRelation::Contradicts,
            vec![id(2)],
            vec![id(3)],
            "reverting the file made the exit code succeed".to_string(),
        )
        .unwrap(),
    );
    assert_eq!(completed.hypothesis_relation(), Some(EvidenceRelation::Contradicts));

    for non_completed in [
        ExperimentOutcome::Inconclusive { reason: "evidence did not resolve either way".into() },
        ExperimentOutcome::Blocked { reason: "precondition failed".into() },
        ExperimentOutcome::Unsupported { reason: "no executor for this kind".into() },
        ExperimentOutcome::Failed { reason: "executor errored".into() },
    ] {
        assert_eq!(
            non_completed.hypothesis_relation(),
            None,
            "{non_completed:?} must never yield a hypothesis_relation"
        );
    }
}

#[test]
fn completed_experiment_rejects_empty_baseline_evidence_ids() {
    let err = CompletedExperiment::new(
        id(1),
        EvidenceRelation::Supports,
        vec![],
        vec![id(2)],
        "summary".to_string(),
    )
    .unwrap_err();
    assert!(err.contains("baseline"));
}

#[test]
fn completed_experiment_rejects_empty_intervention_evidence_ids() {
    let err = CompletedExperiment::new(
        id(1),
        EvidenceRelation::Supports,
        vec![id(2)],
        vec![],
        "summary".to_string(),
    )
    .unwrap_err();
    assert!(err.contains("intervention"));
}

#[test]
fn completed_experiment_populates_hypothesis_and_both_evidence_sides() {
    let completed = CompletedExperiment::new(
        id(1),
        EvidenceRelation::Supports,
        vec![id(2)],
        vec![id(3)],
        "summary".to_string(),
    )
    .unwrap();
    assert_eq!(completed.hypothesis_claim_id, id(1));
    assert_eq!(completed.baseline_evidence_ids, vec![id(2)]);
    assert_eq!(completed.intervention_evidence_ids, vec![id(3)]);
}

#[test]
fn experiment_kinds_are_written_under_their_tags() {
    assert_eq!(ExperimentKind::RevertFileToBaseline.wire_tag(), "revert_file_to_baseline");
    assert_eq!(ExperimentKind::SubstituteToolResult.wire_tag(), "substitute_tool_result");
    assert_eq!(ExperimentKind::DisableSensor.wire_tag(), "disable_sensor");
    assert_eq!(
        ExperimentKind::Custom("claude_code:thinking_block_probe".to_string()).wire_tag(),
        "claude_code:thinking_block_probe"
    );
}

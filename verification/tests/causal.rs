use fornax_types::causal::InterventionalProvenanceWire;
use fornax_types::{
    causal_evidence_from_experiment_result, CausalEvidenceLink, CausalExperimentEvidence,
    CompletedExperiment, EvidenceLink, EvidenceProvenanceClass, EvidenceRelation,
    ExperimentOutcome, ExperimentResult, InterventionalProvenance, Uuid,
};

fn id(n: u128) -> Uuid {
    Uuid::from_u128(n)
}

fn completed_result(
    baseline_ids: Vec<Uuid>,
    intervention_ids: Vec<Uuid>,
    relation: EvidenceRelation,
) -> ExperimentResult {
    ExperimentResult {
        experiment_id: id(0xe1),
        experiment_version: 1,
        outcome: ExperimentOutcome::Completed(
            CompletedExperiment::new(
                id(0xc1),
                relation,
                baseline_ids,
                intervention_ids,
                "reverting the file changed the outcome".to_string(),
            )
            .unwrap(),
        ),
        computed_at: "2026-01-02T00:00:00Z".into(),
    }
}

#[test]
fn interventional_provenance_rejects_empty_baseline_ids() {
    let err = InterventionalProvenance::new(id(1), 1, vec![], vec![id(2)]).unwrap_err();
    assert!(err.contains("baseline"));
}

#[test]
fn interventional_provenance_rejects_empty_intervention_ids() {
    let err = InterventionalProvenance::new(id(1), 1, vec![id(2)], vec![]).unwrap_err();
    assert!(err.contains("intervention"));
}

#[test]
fn interventional_provenance_populates_experiment_and_both_evidence_sides() {
    let experiment_id = id(1);
    let baseline_id = id(2);
    let intervention_id = id(3);
    let provenance = InterventionalProvenance::new(
        experiment_id,
        3,
        vec![baseline_id],
        vec![intervention_id],
    )
    .unwrap();
    assert_eq!(provenance.experiment_id(), experiment_id);
    assert_eq!(provenance.experiment_version(), 3);
    assert_eq!(provenance.baseline_evidence_ids(), &[baseline_id]);
    assert_eq!(provenance.intervention_evidence_ids(), &[intervention_id]);
    assert_eq!(provenance.clone(), provenance);
}

#[test]
fn causal_evidence_link_carrying_observational_is_never_interventional() {
    let link = EvidenceLink {
        id: id(1),
        session_id: "s1".into(),
        claim_id: id(2),
        evidence_id: id(3),
        relation: EvidenceRelation::Supports,
        linked_at: "2026-01-01T00:00:00Z".into(),
    };
    let causal = CausalEvidenceLink { link, provenance: EvidenceProvenanceClass::Observational };
    assert!(!causal.provenance.is_interventional());
    assert!(!EvidenceProvenanceClass::Replayed { manifest_id: id(9) }.is_interventional());
}

#[test]
fn only_completed_causal_evidence_carries_a_hypothesis_relation() {
    let completed = causal_evidence_from_experiment_result(
        &completed_result(vec![id(1)], vec![id(2)], EvidenceRelation::Contradicts),
        "s1",
    )
    .unwrap();
    assert_eq!(completed.hypothesis_relation(), Some(EvidenceRelation::Contradicts));

    for outcome in [
        ExperimentOutcome::Inconclusive { reason: "evidence did not resolve either way".into() },
        ExperimentOutcome::Blocked { reason: "precondition failed".into() },
        ExperimentOutcome::Unsupported { reason: "no executor for this kind".into() },
        ExperimentOutcome::Failed { reason: "executor errored".into() },
    ] {
        let result = ExperimentResult {
            experiment_id: id(1),
            experiment_version: 1,
            outcome,
            computed_at: "2026-01-02T00:00:00Z".into(),
        };
        let causal = causal_evidence_from_experiment_result(&result, "s1").unwrap();
        assert_eq!(
            causal.hypothesis_relation(),
            None,
            "{causal:?} must never yield a hypothesis_relation"
        );
    }
}

#[test]
fn other_outcomes_keep_their_variant_and_reason() {
    let result = ExperimentResult {
        experiment_id: id(1),
        experiment_version: 1,
        outcome: ExperimentOutcome::Blocked { reason: "precondition failed".into() },
        computed_at: "2026-01-02T00:00:00Z".into(),
    };
    assert_eq!(
        causal_evidence_from_experiment_result(&result, "s1"),
        Ok(CausalExperimentEvidence::Blocked { reason: "precondition failed".into() })
    );
}

#[test]
fn interventional_causal_evidence_traces_back_to_baseline_and_intervention_evidence() {
    let baseline_id = id(11);
    let intervention_id = id(12);
    let result =
        completed_result(vec![baseline_id], vec![intervention_id], EvidenceRelation::Supports);
    let causal = causal_evidence_from_experiment_result(&result, "s1").unwrap();

    let CausalExperimentEvidence::Completed { relation, baseline_links, intervention_links } =
        &causal
    else {
        panic!("expected Completed, got {causal:?}");
    };
    assert_eq!(*relation, EvidenceRelation::Supports);

    assert_eq!(baseline_links.len(), 1);
    assert_eq!(baseline_links[0].link.evidence_id, baseline_id);
    assert_eq!(baseline_links[0].provenance, EvidenceProvenanceClass::Observational);

    assert_eq!(intervention_links.len(), 1);
    assert_eq!(intervention_links[0].link.evidence_id, intervention_id);
    assert_eq!(intervention_links[0].link.relation, EvidenceRelation::Supports);
    match &intervention_links[0].provenance {
        EvidenceProvenanceClass::Interventional(provenance) => {
            assert_eq!(provenance.experiment_id(), result.experiment_id);
            assert_eq!(provenance.experiment_version(), result.experiment_version);
            assert_eq!(provenance.baseline_evidence_ids(), &[baseline_id]);
            assert_eq!(provenance.intervention_evidence_ids(), &[intervention_id]);
        }
        other => panic!("expected Interventional provenance, got {other:?}"),
    }
}

#[test]
fn causal_links_carry_the_derived_identifier_session_claim_and_time() {
    let result = completed_result(vec![id(11)], vec![id(12)], EvidenceRelation::Supports);
    let causal = causal_evidence_from_experiment_result(&result, "s1").unwrap();
    let CausalExperimentEvidence::Completed { baseline_links, intervention_links, .. } = &causal
    else {
        panic!("expected Completed, got {causal:?}");
    };
    let namespace = uuid::Uuid::from_bytes([
        0x2b, 0x6f, 0x84, 0x1a, 0x9d, 0x33, 0x4c, 0x8e, 0xb2, 0x71, 0x0a, 0x5e, 0x4d, 0x9c, 0x63,
        0x1f,
    ]);
    let expected = |side: &str, evidence: u128| {
        let name = format!(
            "{}:1:{side}:{}",
            uuid::Uuid::from_u128(0xe1),
            uuid::Uuid::from_u128(evidence)
        );
        uuid::Uuid::new_v5(&namespace, name.as_bytes()).as_u128()
    };
    assert_eq!(baseline_links[0].link.id.as_u128(), expected("baseline", 11));
    assert_eq!(intervention_links[0].link.id.as_u128(), expected("intervention", 12));
    assert_ne!(baseline_links[0].link.id, intervention_links[0].link.id);
    assert_eq!(baseline_links[0].link.relation, EvidenceRelation::Neutral);
    for l in [&baseline_links[0].link, &intervention_links[0].link] {
        assert_eq!(l.session_id, "s1");
        assert_eq!(l.claim_id, id(0xc1));
        assert_eq!(l.linked_at, "2026-01-02T00:00:00Z");
    }
}

#[test]
fn causal_evidence_from_experiment_result_is_deterministic() {
    let result = completed_result(vec![id(1)], vec![id(2)], EvidenceRelation::Supports);
    let a = causal_evidence_from_experiment_result(&result, "s1").unwrap();
    let b = causal_evidence_from_experiment_result(&result, "s1").unwrap();
    assert_eq!(a, b);
}

#[test]
fn malformed_completed_outcome_with_empty_evidence_ids_is_rejected_not_laundered() {
    let malformed = CompletedExperiment {
        hypothesis_claim_id: id(1),
        hypothesis_relation: EvidenceRelation::Supports,
        baseline_evidence_ids: vec![],
        intervention_evidence_ids: vec![id(2)],
        summary: "malformed".into(),
    };
    let result = ExperimentResult {
        experiment_id: id(3),
        experiment_version: 1,
        outcome: ExperimentOutcome::Completed(malformed),
        computed_at: "2026-01-02T00:00:00Z".into(),
    };
    let err = causal_evidence_from_experiment_result(&result, "s1").unwrap_err();
    assert!(err.contains("baseline"));
}

#[test]
fn interventional_provenance_wire_payload_with_empty_evidence_ids_fails_loudly() {
    let wire = |baseline: Vec<Uuid>, intervention: Vec<Uuid>| InterventionalProvenanceWire {
        experiment_id: id(1),
        experiment_version: 1,
        baseline_evidence_ids: baseline,
        intervention_evidence_ids: intervention,
    };
    assert!(InterventionalProvenance::try_from_wire(wire(vec![], vec![])).is_err());
    assert!(InterventionalProvenance::try_from_wire(wire(vec![id(2)], vec![])).is_err());
    let read = InterventionalProvenance::try_from_wire(wire(vec![id(2)], vec![id(3)])).unwrap();
    assert_eq!(read.baseline_evidence_ids(), &[id(2)]);
}

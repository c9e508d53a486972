use fornax_types::epistemic_contract::representative_contracts::all;
use fornax_types::epistemic_contract::{
    assess_claim, CandidateEvidence, ClaimAssessment, ClaimClassId, ContractError, ContractLookup,
    ContractRegistry, CoverageRequirement, EpistemicContract, EvidenceRequirement,
    IndependenceRule, RejectedEvidence, RejectionReason, RequirementLevel, SatisfactionState,
    EPISTEMIC_CONTRACT_SCHEMA_VERSION,
};
use fornax_types::json::canonicalize_value;
use fornax_types::{
    Claim, Evidence, EvidenceKind, FreshnessWindow, Json, JsonNumber, TrustClass, Uuid,
};

fn claim(subject: &str, claimed_at: &str) -> Claim {
    Claim {
        id: Uuid::from_u128(1),
        session_id: "session-1".to_string(),
        source_event_id: Uuid::from_u128(2),
        text: format!("claim about {subject}"),
        subject: subject.to_string(),
        claimed_at: claimed_at.to_string(),
    }
}

fn evidence_with_id(n: u128, kind: EvidenceKind, observed_at: &str) -> Evidence {
    Evidence {
        id: Uuid::from_u128(n),
        session_id: "session-1".to_string(),
        source_event_id: Uuid::from_u128(3),
        kind,
        observed_at: observed_at.to_string(),
        payload: Json::Object(vec![]),
        provenance: "test".to_string(),
        source: None,
        extension: None,
        evidence_purged: false,
    }
}

fn evidence(kind: EvidenceKind, observed_at: &str) -> Evidence {
    evidence_with_id(100, kind, observed_at)
}

fn registry_with_all() -> ContractRegistry {
    let mut reg = ContractRegistry::new();
    for c in all() {
        reg.register(c).expect("representative contracts must validate");
    }
    reg
}

fn assess(
    reg: &ContractRegistry,
    cc: &ClaimClassId,
    claim: &Claim,
    evidence: &[&Evidence],
    conditions_met: &[String],
    trust_class_of: &dyn Fn(&Evidence) -> Option<TrustClass>,
) -> Result<ClaimAssessment, ContractError> {
    let candidates: Vec<CandidateEvidence> = evidence
        .iter()
        .map(|e| CandidateEvidence { evidence: e, trust_class: trust_class_of(e) })
        .collect();
    assess_claim(reg, cc, claim, &candidates, &conditions_met.to_vec())
}

fn requirement(id: &str, level: RequirementLevel, min_items: u32) -> EvidenceRequirement {
    EvidenceRequirement {
        id: id.to_string(),
        level,
        evidence_kind: EvidenceKind::ExitCode,
        acceptable_trust_classes: vec![TrustClass::HostObserved],
        freshness: FreshnessWindow::Durable,
        independence: IndependenceRule::Unconstrained,
        min_coverage: CoverageRequirement { min_items },
        capability_prerequisites: vec![],
        policy_context: None,
    }
}

fn contract(
    name: &str,
    parent: Option<&str>,
    requirements: Vec<EvidenceRequirement>,
) -> EpistemicContract {
    EpistemicContract {
        claim_class: ClaimClassId::new(name, 1),
        schema_version: EPISTEMIC_CONTRACT_SCHEMA_VERSION,
        parent: parent.map(|p| ClaimClassId::new(p, 1)),
        requirements,
    }
}

#[test]
fn tests_passed_satisfied_by_host_observed_exit_code() {
    let reg = registry_with_all();
    let cc = ClaimClassId::new("tests_passed", 1);
    let claim = claim("tests_passed", "2026-09-24T00:10:00Z");
    let ev = evidence(EvidenceKind::ExitCode, "2026-09-24T00:00:00Z");
    let trust_of = |_: &Evidence| Some(TrustClass::HostObserved);
    let assessment = assess(&reg, &cc, &claim, &[&ev], &[], &trust_of).expect("assess ok");
    assert_eq!(assessment.overall, SatisfactionState::Satisfied);
}

#[test]
fn tests_passed_unsatisfied_when_only_agent_adjacent_evidence() {
    let reg = registry_with_all();
    let cc = ClaimClassId::new("tests_passed", 1);
    let claim = claim("tests_passed", "2026-09-24T00:10:00Z");
    let ev = evidence(EvidenceKind::ExitCode, "2026-09-24T00:00:00Z");
    let trust_of = |_: &Evidence| Some(TrustClass::AgentAdjacent);
    let assessment = assess(&reg, &cc, &claim, &[&ev], &[], &trust_of).expect("assess ok");
    assert_eq!(assessment.overall, SatisfactionState::Unsatisfied);
}

#[test]
fn independence_rule_prevents_one_evidence_item_satisfying_two_requirements() {
    let mut reg = ContractRegistry::new();
    let mut second = requirement("second_independent_check", RequirementLevel::Required, 1);
    second.independence = IndependenceRule::MustBeIndependentOf(vec!["first_check".to_string()]);
    reg.register(contract(
        "double_check",
        None,
        vec![requirement("first_check", RequirementLevel::Required, 1), second],
    ))
    .unwrap();
    let cc = ClaimClassId::new("double_check", 1);
    let claim = claim("double_check", "2026-09-24T00:10:00Z");
    let only_ev = evidence(EvidenceKind::ExitCode, "2026-09-24T00:00:00Z");
    let trust_of = |_: &Evidence| Some(TrustClass::HostObserved);

    let assessment = assess(&reg, &cc, &claim, &[&only_ev], &[], &trust_of).expect("assess ok");
    assert_ne!(assessment.overall, SatisfactionState::Satisfied);
    let second = assessment
        .per_requirement
        .iter()
        .find(|r| r.requirement_id == "second_independent_check")
        .unwrap();
    assert_ne!(second.state, SatisfactionState::Satisfied);
    assert_eq!(second.state, SatisfactionState::Unsatisfied);
    assert_eq!(
        second.rejected_evidence,
        vec![RejectedEvidence {
            evidence_id: only_ev.id,
            reason: RejectionReason::ClaimedByIndependentRequirement
        }]
    );

    let ev_a = evidence_with_id(101, EvidenceKind::ExitCode, "2026-09-24T00:00:00Z");
    let ev_b = evidence_with_id(102, EvidenceKind::ExitCode, "2026-09-24T00:00:01Z");
    let assessment2 =
        assess(&reg, &cc, &claim, &[&ev_a, &ev_b], &[], &trust_of).expect("assess ok");
    assert_eq!(assessment2.overall, SatisfactionState::Satisfied);
    assert_eq!(assessment2.per_requirement[0].matched_evidence, vec![ev_a.id]);
    assert_eq!(assessment2.per_requirement[1].matched_evidence, vec![ev_b.id]);
}

fn independent(id: &str, of: &[&str]) -> EvidenceRequirement {
    let mut r = requirement(id, RequirementLevel::Required, 1);
    r.independence =
        IndependenceRule::MustBeIndependentOf(of.iter().map(|o| o.to_string()).collect());
    r
}

#[test]
fn requirements_that_name_each_other_never_share_evidence() {
    let mut reg = ContractRegistry::new();
    reg.register(contract(
        "mutual",
        None,
        vec![independent("a", &["b"]), independent("b", &["a"])],
    ))
    .unwrap();
    let cc = ClaimClassId::new("mutual", 1);
    let claim = claim("mutual", "2026-09-24T00:10:00Z");
    let trust_of = |_: &Evidence| Some(TrustClass::HostObserved);
    let one = evidence_with_id(1, EvidenceKind::ExitCode, "2026-09-24T00:00:00Z");
    let two = evidence_with_id(2, EvidenceKind::ExitCode, "2026-09-24T00:00:00Z");
    let both = assess(&reg, &cc, &claim, &[&one, &two], &[], &trust_of).unwrap();
    assert_eq!(both.overall, SatisfactionState::Satisfied);
    assert_eq!(both.per_requirement[0].matched_evidence, vec![two.id]);
    assert_eq!(both.per_requirement[1].matched_evidence, vec![one.id]);
    let alone = assess(&reg, &cc, &claim, &[&one], &[], &trust_of).unwrap();
    assert_eq!(alone.overall, SatisfactionState::Unsatisfied);
}

#[test]
fn a_chain_of_independent_requirements_never_shares_evidence() {
    let mut reg = ContractRegistry::new();
    reg.register(contract(
        "chain",
        None,
        vec![
            requirement("a", RequirementLevel::Required, 1),
            independent("b", &["a"]),
            independent("c", &["b"]),
        ],
    ))
    .unwrap();
    let cc = ClaimClassId::new("chain", 1);
    let claim = claim("chain", "2026-09-24T00:10:00Z");
    let trust_of = |_: &Evidence| Some(TrustClass::HostObserved);
    let one = evidence_with_id(1, EvidenceKind::ExitCode, "2026-09-24T00:00:00Z");
    let two = evidence_with_id(2, EvidenceKind::ExitCode, "2026-09-24T00:00:00Z");
    let r = assess(&reg, &cc, &claim, &[&one, &two], &[], &trust_of).unwrap();
    assert_eq!(r.overall, SatisfactionState::Satisfied);
    assert_eq!(r.per_requirement[0].matched_evidence, vec![one.id]);
    assert_eq!(r.per_requirement[1].matched_evidence, vec![two.id]);
    assert_eq!(r.per_requirement[2].matched_evidence, vec![one.id]);
}

#[test]
fn build_succeeded_unavailable_with_no_evidence() {
    let reg = registry_with_all();
    let cc = ClaimClassId::new("build_succeeded", 1);
    let claim = claim("build_succeeded", "2026-09-24T00:10:00Z");
    let trust_of = |_: &Evidence| None;
    let assessment = assess(&reg, &cc, &claim, &[], &[], &trust_of).expect("assess ok");
    assert_eq!(assessment.overall, SatisfactionState::Unavailable);
}

#[test]
fn file_changed_satisfied_by_agent_adjacent_diff() {
    let reg = registry_with_all();
    let cc = ClaimClassId::new("file_changed", 1);
    let claim = claim("file_changed", "2026-09-24T00:10:00Z");
    let ev = evidence(EvidenceKind::FileDiff, "2026-09-20T00:00:00Z");
    let trust_of = |_: &Evidence| Some(TrustClass::AgentAdjacent);
    let assessment = assess(&reg, &cc, &claim, &[&ev], &[], &trust_of).expect("assess ok");
    assert_eq!(assessment.overall, SatisfactionState::Satisfied);
}

#[test]
fn commit_push_completed_conditional_requirement_not_applicable_when_condition_unmet() {
    let reg = registry_with_all();
    let cc = ClaimClassId::new("commit_push_completed", 1);
    let claim = claim("commit_push_completed", "2026-09-24T00:10:00Z");
    let ev = evidence(EvidenceKind::ProcessObservation, "2026-09-24T00:00:00Z");
    let trust_of = |_: &Evidence| Some(TrustClass::HostObserved);
    let assessment = assess(&reg, &cc, &claim, &[&ev], &[], &trust_of).expect("assess ok");
    assert_eq!(assessment.overall, SatisfactionState::Satisfied);
    let conditional = assessment
        .per_requirement
        .iter()
        .find(|r| r.requirement_id == "remote_ref_independent_confirmation")
        .unwrap();
    assert_eq!(conditional.state, SatisfactionState::NotApplicable);
}

#[test]
fn commit_push_completed_conditional_requirement_blocks_when_condition_met_and_unsatisfied() {
    let reg = registry_with_all();
    let cc = ClaimClassId::new("commit_push_completed", 1);
    let claim = claim("commit_push_completed", "2026-09-24T00:10:00Z");
    let ev = evidence(EvidenceKind::ProcessObservation, "2026-09-24T00:00:00Z");
    let trust_of = |_: &Evidence| Some(TrustClass::HostObserved);
    let conditions = vec!["claim asserts a push to a shared/remote ref".to_string()];
    let assessment = assess(&reg, &cc, &claim, &[&ev], &conditions, &trust_of).expect("assess ok");
    assert_ne!(assessment.overall, SatisfactionState::Satisfied);
}

#[test]
fn deployment_healthy_never_satisfied_by_agent_self_report() {
    let reg = registry_with_all();
    let cc = ClaimClassId::new("deployment_healthy", 1);
    let claim = claim("deployment_healthy", "2026-09-24T00:10:00Z");
    let ev = evidence(EvidenceKind::ProcessObservation, "2026-09-24T00:09:00Z");
    let trust_of = |_: &Evidence| Some(TrustClass::AgentAdjacent);
    let assessment = assess(&reg, &cc, &claim, &[&ev], &[], &trust_of).expect("assess ok");
    assert_eq!(assessment.overall, SatisfactionState::Unsatisfied);
}

#[test]
fn security_defect_fixed_requires_both_test_and_human_review() {
    let reg = registry_with_all();
    let cc = ClaimClassId::new("security_defect_fixed", 1);
    let claim = claim("security_defect_fixed", "2026-09-24T00:10:00Z");
    let test_ev = evidence_with_id(101, EvidenceKind::ExitCode, "2026-09-24T00:00:00Z");
    let trust_of = |ev: &Evidence| {
        if ev.kind == EvidenceKind::ExitCode {
            Some(TrustClass::HostObserved)
        } else {
            None
        }
    };
    let assessment = assess(&reg, &cc, &claim, &[&test_ev], &[], &trust_of).expect("assess ok");
    assert_ne!(assessment.overall, SatisfactionState::Satisfied);

    let human_ev = evidence_with_id(102, EvidenceKind::TranscriptExcerpt, "2026-09-24T00:00:00Z");
    let trust_of_both = |ev: &Evidence| match ev.kind {
        EvidenceKind::ExitCode => Some(TrustClass::HostObserved),
        EvidenceKind::TranscriptExcerpt => Some(TrustClass::HumanReviewed),
        _ => None,
    };
    let assessment2 =
        assess(&reg, &cc, &claim, &[&test_ev, &human_ev], &[], &trust_of_both).expect("assess ok");
    assert_eq!(assessment2.overall, SatisfactionState::Satisfied);
}

#[test]
fn unknown_claim_type_never_satisfied() {
    let reg = registry_with_all();
    let cc = ClaimClassId::new("totally_unheard_of_claim_class", 1);
    let claim = claim("totally_unheard_of_claim_class", "2026-09-24T00:10:00Z");
    let ev = evidence(EvidenceKind::ExitCode, "2026-09-24T00:00:00Z");
    let trust_of = |_: &Evidence| Some(TrustClass::HostObserved);
    let assessment = assess(&reg, &cc, &claim, &[&ev], &[], &trust_of).expect("assess ok");
    assert_eq!(assessment.overall, SatisfactionState::Unknown);
    assert!(assessment.per_requirement.is_empty());
    assert_ne!(assessment.overall, SatisfactionState::Satisfied);
}

#[test]
fn unknown_claim_type_even_with_matching_version_zero_contract_absent() {
    let reg = ContractRegistry::new();
    let cc = ClaimClassId::new("tests_passed", 1);
    let claim = claim("tests_passed", "2026-09-24T00:10:00Z");
    let trust_of = |_: &Evidence| Some(TrustClass::HostObserved);
    let assessment = assess(&reg, &cc, &claim, &[], &[], &trust_of).expect("assess ok");
    assert_eq!(assessment.overall, SatisfactionState::Unknown);
}

#[test]
fn child_contract_cannot_downgrade_required_to_recommended() {
    let mut reg = ContractRegistry::new();
    reg.register(contract(
        "parent_class",
        None,
        vec![requirement("req_a", RequirementLevel::Required, 1)],
    ))
    .unwrap();
    reg.register(contract(
        "child_class",
        Some("parent_class"),
        vec![requirement("req_a", RequirementLevel::Recommended, 1)],
    ))
    .unwrap();
    let result = reg.effective_requirements(&ClaimClassId::new("child_class", 1));
    assert!(matches!(result, Err(ContractError::WeakenedRequirement { .. })));
}

#[test]
fn child_contract_cannot_lower_min_coverage() {
    let mut reg = ContractRegistry::new();
    reg.register(contract(
        "parent_cov",
        None,
        vec![requirement("req_a", RequirementLevel::Required, 2)],
    ))
    .unwrap();
    reg.register(contract(
        "child_cov",
        Some("parent_cov"),
        vec![requirement("req_a", RequirementLevel::Required, 1)],
    ))
    .unwrap();
    let result = reg.effective_requirements(&ClaimClassId::new("child_cov", 1));
    assert!(matches!(result, Err(ContractError::WeakenedRequirement { .. })));
}

#[test]
fn child_contract_cannot_narrow_required_trust_classes() {
    let mut reg = ContractRegistry::new();
    let mut inherited = requirement("req_a", RequirementLevel::Required, 1);
    inherited.acceptable_trust_classes =
        vec![TrustClass::HostObserved, TrustClass::IndependentExternal];
    reg.register(contract("parent_trust", None, vec![inherited])).unwrap();
    reg.register(contract(
        "child_trust",
        Some("parent_trust"),
        vec![requirement("req_a", RequirementLevel::Required, 1)],
    ))
    .unwrap();
    let result = reg.effective_requirements(&ClaimClassId::new("child_trust", 1));
    assert!(matches!(result, Err(ContractError::WeakenedRequirement { .. })));
}

#[test]
fn child_contract_cannot_narrow_trust_classes_at_any_level() {
    for level in [
        RequirementLevel::Recommended,
        RequirementLevel::Conditional { condition: "claims a release".to_string() },
    ] {
        let mut reg = ContractRegistry::new();
        let mut inherited = requirement("req_a", level.clone(), 1);
        inherited.acceptable_trust_classes =
            vec![TrustClass::HostObserved, TrustClass::AgentAdjacent];
        reg.register(contract("parent_trust", None, vec![inherited.clone()])).unwrap();
        let mut narrowed = requirement("req_a", level, 1);
        narrowed.acceptable_trust_classes = vec![TrustClass::HostObserved];
        reg.register(contract("narrow", Some("parent_trust"), vec![narrowed])).unwrap();
        assert_eq!(
            reg.effective_requirements(&ClaimClassId::new("narrow", 1)),
            Err(ContractError::WeakenedRequirement {
                claim_class: ClaimClassId::new("narrow", 1),
                requirement_id: "req_a".to_string(),
                reason: "child acceptable_trust_classes drops a trust class the inherited requirement accepted",
            })
        );
        let mut widened = inherited;
        widened.acceptable_trust_classes.push(TrustClass::IndependentExternal);
        reg.register(contract("wide", Some("parent_trust"), vec![widened.clone()])).unwrap();
        assert_eq!(
            reg.effective_requirements(&ClaimClassId::new("wide", 1)),
            Ok(vec![widened])
        );
    }
}

#[test]
fn weakened_requirements_are_reported_in_full() {
    let mut reg = ContractRegistry::new();
    reg.register(contract(
        "parent_cov",
        None,
        vec![requirement("req_a", RequirementLevel::Required, 2)],
    ))
    .unwrap();
    reg.register(contract(
        "child_cov",
        Some("parent_cov"),
        vec![requirement("req_a", RequirementLevel::Required, 1)],
    ))
    .unwrap();
    assert_eq!(
        reg.effective_requirements(&ClaimClassId::new("child_cov", 1)),
        Err(ContractError::WeakenedRequirement {
            claim_class: ClaimClassId::new("child_cov", 1),
            requirement_id: "req_a".to_string(),
            reason: "child min_coverage is lower than the inherited min_coverage",
        })
    );
}

#[test]
fn child_contract_may_strengthen_inherited_requirement() {
    let mut reg = ContractRegistry::new();
    reg.register(contract(
        "parent_strong",
        None,
        vec![requirement("req_a", RequirementLevel::Recommended, 1)],
    ))
    .unwrap();
    reg.register(contract(
        "child_strong",
        Some("parent_strong"),
        vec![requirement("req_a", RequirementLevel::Required, 3)],
    ))
    .unwrap();
    let result = reg
        .effective_requirements(&ClaimClassId::new("child_strong", 1))
        .expect("strengthening must be allowed");
    let req = result.iter().find(|r| r.id == "req_a").unwrap();
    assert_eq!(req.level, RequirementLevel::Required);
    assert_eq!(req.min_coverage.min_items, 3);
}

#[test]
fn a_requirement_not_mentioned_by_child_is_inherited_unchanged() {
    let mut reg = ContractRegistry::new();
    reg.register(contract(
        "parent_keep",
        None,
        vec![requirement("req_kept", RequirementLevel::Required, 1)],
    ))
    .unwrap();
    reg.register(contract("child_keep", Some("parent_keep"), vec![])).unwrap();
    let result = reg
        .effective_requirements(&ClaimClassId::new("child_keep", 1))
        .expect("no override is not a removal");
    assert_eq!(result.len(), 1);
    assert_eq!(result[0].id, "req_kept");
    assert_eq!(result[0].level, RequirementLevel::Required);
}

#[test]
fn requirements_come_out_in_the_order_of_their_identifiers() {
    let mut reg = ContractRegistry::new();
    reg.register(contract(
        "grandparent",
        None,
        vec![requirement("m", RequirementLevel::Required, 1)],
    ))
    .unwrap();
    reg.register(contract(
        "parent",
        Some("grandparent"),
        vec![requirement("z", RequirementLevel::Recommended, 1)],
    ))
    .unwrap();
    reg.register(contract(
        "child",
        Some("parent"),
        vec![
            requirement("z", RequirementLevel::Required, 2),
            requirement("a", RequirementLevel::Required, 1),
        ],
    ))
    .unwrap();
    let result = reg.effective_requirements(&ClaimClassId::new("child", 1)).unwrap();
    let ids: Vec<&str> = result.iter().map(|r| r.id.as_str()).collect();
    assert_eq!(ids, vec!["a", "m", "z"]);
    assert_eq!(result[2].min_coverage.min_items, 2);
}

#[test]
fn inheritance_cycle_is_rejected() {
    let mut reg = ContractRegistry::new();
    reg.register(contract("cycle_a", Some("cycle_b"), vec![])).unwrap();
    reg.register(contract("cycle_b", Some("cycle_a"), vec![])).unwrap();
    let result = reg.effective_requirements(&ClaimClassId::new("cycle_a", 1));
    assert!(matches!(result, Err(ContractError::InheritanceCycle { .. })));
}

#[test]
fn a_chain_as_long_as_the_registry_is_no_cycle() {
    let mut reg = ContractRegistry::new();
    reg.register(contract("leaf", Some("middle"), vec![])).unwrap();
    reg.register(contract("middle", Some("root"), vec![])).unwrap();
    reg.register(contract("root", None, vec![])).unwrap();
    assert_eq!(reg.effective_requirements(&ClaimClassId::new("leaf", 1)), Ok(vec![]));
}

#[test]
fn missing_parents_name_the_contract_that_needs_them() {
    let mut reg = ContractRegistry::new();
    reg.register(contract("child", Some("nowhere"), vec![])).unwrap();
    assert_eq!(
        reg.effective_requirements(&ClaimClassId::new("child", 1)),
        Err(ContractError::MissingParent {
            claim_class: ClaimClassId::new("child", 1),
            parent: ClaimClassId::new("nowhere", 1),
        })
    );
    assert_eq!(
        reg.effective_requirements(&ClaimClassId::new("child", 2)),
        Err(ContractError::MissingParent {
            claim_class: ClaimClassId::new("child", 2),
            parent: ClaimClassId::new("child", 2),
        })
    );
}

#[test]
fn unsatisfiable_required_requirement_rejected_at_registration() {
    let mut reg = ContractRegistry::new();
    let mut impossible = requirement("impossible", RequirementLevel::Required, 1);
    impossible.acceptable_trust_classes = vec![];
    let result = reg.register(contract("bad_class", None, vec![impossible]));
    assert!(matches!(result, Err(ContractError::UnsatisfiableRequirement { .. })));
    assert_eq!(reg.lookup(&ClaimClassId::new("bad_class", 1)), ContractLookup::Unknown);
}

#[test]
fn a_requirement_without_coverage_is_rejected_at_registration() {
    let mut reg = ContractRegistry::new();
    let result = reg.register(contract(
        "bad_class",
        None,
        vec![requirement("nothing", RequirementLevel::Recommended, 0)],
    ));
    assert_eq!(
        result,
        Err(ContractError::UnsatisfiableRequirement {
            claim_class: ClaimClassId::new("bad_class", 1),
            requirement_id: "nothing".to_string(),
            reason: "min_coverage.min_items must be at least 1",
        })
    );
}

#[test]
fn stale_evidence_is_not_conflated_with_unavailable_or_unsatisfied() {
    let reg = registry_with_all();
    let cc = ClaimClassId::new("build_succeeded", 1);
    let claim = claim("build_succeeded", "2026-09-24T02:00:00Z");
    let stale_ev = evidence(EvidenceKind::ExitCode, "2026-09-24T00:00:00Z");
    let trust_of = |_: &Evidence| Some(TrustClass::HostObserved);
    let assessment = assess(&reg, &cc, &claim, &[&stale_ev], &[], &trust_of).expect("assess ok");
    let req = &assessment.per_requirement[0];
    assert_eq!(req.state, SatisfactionState::Stale);
    assert_ne!(req.state, SatisfactionState::Unavailable);
    assert_ne!(req.state, SatisfactionState::Unsatisfied);
    assert_eq!(
        req.rejected_evidence,
        vec![RejectedEvidence { evidence_id: stale_ev.id, reason: RejectionReason::Stale }]
    );
}

#[test]
fn matched_evidence_is_empty_unless_the_requirement_is_satisfied() {
    let mut reg = ContractRegistry::new();
    reg.register(contract(
        "twice",
        None,
        vec![requirement("two_runs", RequirementLevel::Required, 2)],
    ))
    .unwrap();
    let cc = ClaimClassId::new("twice", 1);
    let claim = claim("twice", "2026-09-24T00:10:00Z");
    let trust_of = |_: &Evidence| Some(TrustClass::HostObserved);
    let a = evidence_with_id(1, EvidenceKind::ExitCode, "2026-09-24T00:00:00Z");
    let b = evidence_with_id(2, EvidenceKind::ExitCode, "2026-09-24T00:00:00Z");
    let c = evidence_with_id(3, EvidenceKind::ExitCode, "2026-09-24T00:00:00Z");

    let short = assess(&reg, &cc, &claim, &[&a], &[], &trust_of).unwrap();
    assert_eq!(short.overall, SatisfactionState::Unsatisfied);
    assert!(short.per_requirement[0].rejected_evidence.is_empty());
    assert!(short.per_requirement[0].matched_evidence.is_empty());

    let enough = assess(&reg, &cc, &claim, &[&a, &b, &c], &[], &trust_of).unwrap();
    assert_eq!(enough.overall, SatisfactionState::Satisfied);
    assert_eq!(enough.per_requirement[0].matched_evidence, vec![a.id, b.id]);
}

#[test]
fn the_overall_state_names_the_sharpest_problem_and_recommendations_never_block() {
    let mut reg = ContractRegistry::new();
    let mut stale = requirement("a_stale", RequirementLevel::Required, 1);
    stale.freshness = FreshnessWindow::Perishable { max_age_seconds: 10 };
    let mut absent = requirement("b_absent", RequirementLevel::Required, 1);
    absent.evidence_kind = EvidenceKind::FileDiff;
    let mut wished = requirement("c_wished", RequirementLevel::Recommended, 1);
    wished.evidence_kind = EvidenceKind::ToolResult;
    reg.register(contract("mixed", None, vec![stale, absent, wished.clone()])).unwrap();
    reg.register(contract("wish", None, vec![wished])).unwrap();
    let claim = claim("mixed", "2026-09-24T00:10:00Z");
    let ev = evidence(EvidenceKind::ExitCode, "2026-09-24T00:00:00Z");
    let trust_of = |_: &Evidence| Some(TrustClass::HostObserved);
    let mixed =
        assess(&reg, &ClaimClassId::new("mixed", 1), &claim, &[&ev], &[], &trust_of).unwrap();
    assert_eq!(mixed.overall, SatisfactionState::Stale);
    assert_eq!(mixed.per_requirement[1].state, SatisfactionState::Unavailable);
    let wish = assess(&reg, &ClaimClassId::new("wish", 1), &claim, &[&ev], &[], &trust_of).unwrap();
    assert_eq!(wish.per_requirement[0].state, SatisfactionState::Unavailable);
    assert_eq!(wish.overall, SatisfactionState::Satisfied);
}

#[test]
fn evidence_of_unclear_age_or_unrecorded_source_is_rejected_with_its_reason() {
    let reg = registry_with_all();
    let cc = ClaimClassId::new("build_succeeded", 1);
    let claim = claim("build_succeeded", "2026-09-24T00:10:00Z");
    let later = evidence(EvidenceKind::ExitCode, "2026-09-24T00:11:00Z");
    let seen = |_: &Evidence| Some(TrustClass::HostObserved);
    let unclear = assess(&reg, &cc, &claim, &[&later], &[], &seen).unwrap();
    assert_eq!(unclear.overall, SatisfactionState::Stale);
    assert_eq!(
        unclear.per_requirement[0].rejected_evidence[0].reason,
        RejectionReason::IndeterminateFreshness
    );
    let unrecorded = |_: &Evidence| None;
    let untrusted = assess(&reg, &cc, &claim, &[&later], &[], &unrecorded).unwrap();
    assert_eq!(untrusted.overall, SatisfactionState::Unsatisfied);
    assert_eq!(
        untrusted.per_requirement[0].rejected_evidence[0].reason,
        RejectionReason::WrongTrustClass
    );
}

#[test]
fn a_time_that_cannot_be_read_leaves_a_requirement_unknown() {
    let reg = registry_with_all();
    let cc = ClaimClassId::new("build_succeeded", 1);
    let trust_of = |_: &Evidence| Some(TrustClass::HostObserved);
    let dated = claim("build_succeeded", "2026-09-24T00:10:00Z");
    let undated = claim("build_succeeded", "yesterday");
    let seen = evidence_with_id(1, EvidenceKind::ExitCode, "2026-09-24T00:00:00Z");
    let blurred = evidence_with_id(2, EvidenceKind::ExitCode, "some time ago");
    for (claim, offered) in [(&dated, &blurred), (&undated, &seen)] {
        let a = assess(&reg, &cc, claim, &[offered], &[], &trust_of).unwrap();
        assert_eq!(a.overall, SatisfactionState::Unknown);
        assert_eq!(
            a.per_requirement[0].rejected_evidence,
            vec![RejectedEvidence {
                evidence_id: offered.id,
                reason: RejectionReason::IndeterminateFreshness
            }]
        );
    }
    let enough = assess(&reg, &cc, &dated, &[&blurred, &seen], &[], &trust_of).unwrap();
    assert_eq!(enough.overall, SatisfactionState::Satisfied);
}

#[test]
fn all_seven_named_states_are_pairwise_distinct() {
    let states = [
        SatisfactionState::Satisfied,
        SatisfactionState::Unsatisfied,
        SatisfactionState::Unavailable,
        SatisfactionState::Stale,
        SatisfactionState::Contradicted,
        SatisfactionState::NotApplicable,
        SatisfactionState::Unknown,
    ];
    for (i, a) in states.iter().enumerate() {
        for (j, b) in states.iter().enumerate() {
            if i != j {
                assert_ne!(a, b, "states at {i} and {j} must be distinct");
            }
        }
    }
}

fn number(n: u64) -> Json {
    Json::Number(JsonNumber::Positive(n))
}

#[test]
fn canonical_json_key_order_is_independent_of_struct_field_order_in_maps() {
    let m1 = Json::Object(vec![("b".to_string(), number(1)), ("a".to_string(), number(2))]);
    let m2 = Json::Object(vec![("a".to_string(), number(2)), ("b".to_string(), number(1))]);
    assert_ne!(m1, m2);
    assert_eq!(canonicalize_value(m1), canonicalize_value(m2.clone()));
    assert_eq!(canonicalize_value(m2.clone()), m2);
}

#[test]
fn canonical_form_sorts_objects_at_every_depth_and_leaves_arrays_in_order() {
    let inner = Json::Object(vec![("y".to_string(), Json::Null), ("x".to_string(), number(1))]);
    let value = Json::Object(vec![
        ("list".to_string(), Json::Array(vec![inner.clone(), Json::Bool(true), number(2)])),
        ("deep".to_string(), inner),
    ]);
    let sorted = Json::Object(vec![("x".to_string(), number(1)), ("y".to_string(), Json::Null)]);
    assert_eq!(
        canonicalize_value(value),
        Json::Object(vec![
            ("deep".to_string(), sorted.clone()),
            ("list".to_string(), Json::Array(vec![sorted, Json::Bool(true), number(2)])),
        ])
    );
}

#[test]
fn all_six_representative_contracts_validate_and_register() {
    let reg = registry_with_all();
    for cc_name in [
        "tests_passed",
        "build_succeeded",
        "file_changed",
        "commit_push_completed",
        "deployment_healthy",
        "security_defect_fixed",
    ] {
        let cc = ClaimClassId::new(cc_name, 1);
        assert!(matches!(reg.lookup(&cc), ContractLookup::Found(_)));
        reg.effective_requirements(&cc)
            .unwrap_or_else(|e| panic!("{cc_name} must resolve: {e:?}"));
    }
}

#[test]
fn representative_contracts_resolve_to_their_own_requirements_in_any_order() {
    for backwards in [false, true] {
        let mut contracts = all();
        if backwards {
            contracts.reverse();
        }
        let mut reg = ContractRegistry::new();
        for c in contracts {
            reg.register(c).unwrap();
        }
        for c in all() {
            let mut own = c.requirements.clone();
            own.sort_by(|a, b| a.id.cmp(&b.id));
            assert_eq!(reg.effective_requirements(&c.claim_class).unwrap(), own);
        }
    }
}

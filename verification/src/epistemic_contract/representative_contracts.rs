//! Contracts for six kinds of claim a coding agent makes.
use vstd::prelude::*;

use crate::capabilities::SignalClass;
use crate::epistemic_contract::{
    contract_problem, contract_problem_from, effective, ids_differ, in_key_order,
    law_root_contracts_resolve_to_themselves, ClaimClassId, ClaimClassIdModel, CoverageRequirement,
    EpistemicContract, EpistemicContractModel, EvidenceRequirement, EvidenceRequirementModel,
    IndependenceRule, IndependenceRuleModel, RequirementLevel, RequirementLevelModel,
    EPISTEMIC_CONTRACT_SCHEMA_VERSION,
};
use crate::evidence::EvidenceKind;
use crate::graph::FreshnessWindow;
use crate::model::{known_tag, Tag};
use crate::sensor::TrustClass;

verus! {

/// A requirement that one piece of evidence meets.
pub open spec fn single_item(
    id: Seq<char>,
    level: RequirementLevelModel,
    evidence_kind: EvidenceKind,
    acceptable_trust_classes: Seq<Tag>,
    freshness: FreshnessWindow,
    independence: IndependenceRuleModel,
    capability_prerequisites: Seq<Tag>,
    policy_context: Option<Seq<char>>,
) -> EvidenceRequirementModel {
    EvidenceRequirementModel {
        id,
        level,
        evidence_kind,
        acceptable_trust_classes,
        freshness,
        independence,
        min_coverage: CoverageRequirement { min_items: 1 },
        capability_prerequisites,
        policy_context,
    }
}

/// The first version of a contract that inherits from none.
pub open spec fn root_contract(name: Seq<char>, requirements: Seq<EvidenceRequirementModel>) -> EpistemicContractModel {
    EpistemicContractModel {
        claim_class: ClaimClassIdModel { name, version: 1 },
        schema_version: EPISTEMIC_CONTRACT_SCHEMA_VERSION,
        parent: None,
        requirements,
    }
}

/// What [`tests_passed`] builds.
pub open spec fn tests_passed_model() -> EpistemicContractModel {
    root_contract(
        "tests_passed"@,
        seq![
            single_item(
                "test_runner_exit_code"@,
                RequirementLevelModel::Required,
                EvidenceKind::ExitCode,
                seq![TrustClass::HostObserved.deep_view()],
                FreshnessWindow::Perishable { max_age_seconds: 3600 },
                IndependenceRuleModel::Unconstrained,
                seq![SignalClass::ProcessResult.deep_view()],
                None,
            ),
            single_item(
                "provider_tool_result_corroboration"@,
                RequirementLevelModel::Recommended,
                EvidenceKind::ToolResult,
                seq![TrustClass::AgentAdjacent.deep_view()],
                FreshnessWindow::Durable,
                IndependenceRuleModel::MustBeIndependentOf(seq!["test_runner_exit_code"@]),
                Seq::empty(),
                None,
            ),
        ],
    )
}

/// Tests passed: the runner's own exit code, seen on the host.
pub fn tests_passed() -> (r: EpistemicContract)
    ensures
        r.deep_view() == tests_passed_model(),
{
    let first = EvidenceRequirement {
        id: "test_runner_exit_code".to_owned(),
        level: RequirementLevel::Required,
        evidence_kind: EvidenceKind::ExitCode,
        acceptable_trust_classes: vec![TrustClass::HostObserved],
        freshness: FreshnessWindow::Perishable { max_age_seconds: 3600 },
        independence: IndependenceRule::Unconstrained,
        min_coverage: CoverageRequirement::single(),
        capability_prerequisites: vec![SignalClass::ProcessResult],
        policy_context: None,
    };
    assert(first.deep_view() =~~= tests_passed_model().requirements[0]);
    let second = EvidenceRequirement {
        id: "provider_tool_result_corroboration".to_owned(),
        level: RequirementLevel::Recommended,
        evidence_kind: EvidenceKind::ToolResult,
        acceptable_trust_classes: vec![TrustClass::AgentAdjacent],
        freshness: FreshnessWindow::Durable,
        independence: IndependenceRule::MustBeIndependentOf(vec!["test_runner_exit_code".to_owned()]),
        min_coverage: CoverageRequirement::single(),
        capability_prerequisites: Vec::new(),
        policy_context: None,
    };
    assert(second.deep_view() =~~= tests_passed_model().requirements[1]);
    let requirements = vec![first, second];
    assert(requirements.deep_view() =~= tests_passed_model().requirements);
    EpistemicContract {
        claim_class: ClaimClassId::new("tests_passed", 1),
        schema_version: EPISTEMIC_CONTRACT_SCHEMA_VERSION,
        parent: None,
        requirements,
    }
}

/// What [`build_succeeded`] builds.
pub open spec fn build_succeeded_model() -> EpistemicContractModel {
    root_contract(
        "build_succeeded"@,
        seq![
            single_item(
                "build_exit_code"@,
                RequirementLevelModel::Required,
                EvidenceKind::ExitCode,
                seq![TrustClass::HostObserved.deep_view()],
                FreshnessWindow::Perishable { max_age_seconds: 3600 },
                IndependenceRuleModel::Unconstrained,
                seq![SignalClass::ProcessResult.deep_view()],
                None,
            ),
        ],
    )
}

/// A build succeeded: the build's exit code, seen on the host.
pub fn build_succeeded() -> (r: EpistemicContract)
    ensures
        r.deep_view() == build_succeeded_model(),
{
    let first = EvidenceRequirement {
        id: "build_exit_code".to_owned(),
        level: RequirementLevel::Required,
        evidence_kind: EvidenceKind::ExitCode,
        acceptable_trust_classes: vec![TrustClass::HostObserved],
        freshness: FreshnessWindow::Perishable { max_age_seconds: 3600 },
        independence: IndependenceRule::Unconstrained,
        min_coverage: CoverageRequirement::single(),
        capability_prerequisites: vec![SignalClass::ProcessResult],
        policy_context: None,
    };
    assert(first.deep_view() =~~= build_succeeded_model().requirements[0]);
    let requirements = vec![first];
    assert(requirements.deep_view() =~= build_succeeded_model().requirements);
    EpistemicContract {
        claim_class: ClaimClassId::new("build_succeeded", 1),
        schema_version: EPISTEMIC_CONTRACT_SCHEMA_VERSION,
        parent: None,
        requirements,
    }
}

/// What [`file_changed`] builds.
pub open spec fn file_changed_model() -> EpistemicContractModel {
    root_contract(
        "file_changed"@,
        seq![
            single_item(
                "file_diff_observed"@,
                RequirementLevelModel::Required,
                EvidenceKind::FileDiff,
                seq![TrustClass::HostObserved.deep_view(), TrustClass::AgentAdjacent.deep_view()],
                FreshnessWindow::Durable,
                IndependenceRuleModel::Unconstrained,
                Seq::empty(),
                None,
            ),
        ],
    )
}

/// A file changed: a diff of it.
pub fn file_changed() -> (r: EpistemicContract)
    ensures
        r.deep_view() == file_changed_model(),
{
    let first = EvidenceRequirement {
        id: "file_diff_observed".to_owned(),
        level: RequirementLevel::Required,
        evidence_kind: EvidenceKind::FileDiff,
        acceptable_trust_classes: vec![TrustClass::HostObserved, TrustClass::AgentAdjacent],
        freshness: FreshnessWindow::Durable,
        independence: IndependenceRule::Unconstrained,
        min_coverage: CoverageRequirement::single(),
        capability_prerequisites: Vec::new(),
        policy_context: None,
    };
    assert(first.deep_view() =~~= file_changed_model().requirements[0]);
    let requirements = vec![first];
    assert(requirements.deep_view() =~= file_changed_model().requirements);
    EpistemicContract {
        claim_class: ClaimClassId::new("file_changed", 1),
        schema_version: EPISTEMIC_CONTRACT_SCHEMA_VERSION,
        parent: None,
        requirements,
    }
}

/// What [`commit_push_completed`] builds.
pub open spec fn commit_push_completed_model() -> EpistemicContractModel {
    root_contract(
        "commit_push_completed"@,
        seq![
            single_item(
                "vcs_operation_observed"@,
                RequirementLevelModel::Required,
                EvidenceKind::ProcessObservation,
                seq![TrustClass::HostObserved.deep_view()],
                FreshnessWindow::Durable,
                IndependenceRuleModel::Unconstrained,
                Seq::empty(),
                None,
            ),
            single_item(
                "remote_ref_independent_confirmation"@,
                RequirementLevelModel::Conditional {
                    condition: "claim asserts a push to a shared/remote ref"@,
                },
                EvidenceKind::ProcessObservation,
                seq![TrustClass::IndependentExternal.deep_view()],
                FreshnessWindow::Perishable { max_age_seconds: 86400 },
                IndependenceRuleModel::MustBeIndependentOf(seq!["vcs_operation_observed"@]),
                Seq::empty(),
                Some("change-management evidence trail for shared history"@),
            ),
        ],
    )
}

/// A commit or push completed; a push to a shared ref needs confirmation from
/// outside.
pub fn commit_push_completed() -> (r: EpistemicContract)
    ensures
        r.deep_view() == commit_push_completed_model(),
{
    let first = EvidenceRequirement {
        id: "vcs_operation_observed".to_owned(),
        level: RequirementLevel::Required,
        evidence_kind: EvidenceKind::ProcessObservation,
        acceptable_trust_classes: vec![TrustClass::HostObserved],
        freshness: FreshnessWindow::Durable,
        independence: IndependenceRule::Unconstrained,
        min_coverage: CoverageRequirement::single(),
        capability_prerequisites: Vec::new(),
        policy_context: None,
    };
    assert(first.deep_view() =~~= commit_push_completed_model().requirements[0]);
    let second = EvidenceRequirement {
        id: "remote_ref_independent_confirmation".to_owned(),
        level: RequirementLevel::Conditional {
            condition: "claim asserts a push to a shared/remote ref".to_owned(),
        },
        evidence_kind: EvidenceKind::ProcessObservation,
        acceptable_trust_classes: vec![TrustClass::IndependentExternal],
        freshness: FreshnessWindow::Perishable { max_age_seconds: 86400 },
        independence: IndependenceRule::MustBeIndependentOf(vec!["vcs_operation_observed".to_owned()]),
        min_coverage: CoverageRequirement::single(),
        capability_prerequisites: Vec::new(),
        policy_context: Some("change-management evidence trail for shared history".to_owned()),
    };
    assert(second.deep_view() =~~= commit_push_completed_model().requirements[1]);
    let requirements = vec![first, second];
    assert(requirements.deep_view() =~= commit_push_completed_model().requirements);
    EpistemicContract {
        claim_class: ClaimClassId::new("commit_push_completed", 1),
        schema_version: EPISTEMIC_CONTRACT_SCHEMA_VERSION,
        parent: None,
        requirements,
    }
}

/// What [`deployment_healthy`] builds.
pub open spec fn deployment_healthy_model() -> EpistemicContractModel {
    root_contract(
        "deployment_healthy"@,
        seq![
            single_item(
                "independent_health_check"@,
                RequirementLevelModel::Required,
                EvidenceKind::ProcessObservation,
                seq![TrustClass::IndependentExternal.deep_view()],
                FreshnessWindow::Perishable { max_age_seconds: 300 },
                IndependenceRuleModel::Unconstrained,
                Seq::empty(),
                Some("production change-safety gate"@),
            ),
        ],
    )
}

/// A deployment is healthy: never on the agent's own word.
pub fn deployment_healthy() -> (r: EpistemicContract)
    ensures
        r.deep_view() == deployment_healthy_model(),
{
    let first = EvidenceRequirement {
        id: "independent_health_check".to_owned(),
        level: RequirementLevel::Required,
        evidence_kind: EvidenceKind::ProcessObservation,
        acceptable_trust_classes: vec![TrustClass::IndependentExternal],
        freshness: FreshnessWindow::Perishable { max_age_seconds: 300 },
        independence: IndependenceRule::Unconstrained,
        min_coverage: CoverageRequirement::single(),
        capability_prerequisites: Vec::new(),
        policy_context: Some("production change-safety gate".to_owned()),
    };
    assert(first.deep_view() =~~= deployment_healthy_model().requirements[0]);
    let requirements = vec![first];
    assert(requirements.deep_view() =~= deployment_healthy_model().requirements);
    EpistemicContract {
        claim_class: ClaimClassId::new("deployment_healthy", 1),
        schema_version: EPISTEMIC_CONTRACT_SCHEMA_VERSION,
        parent: None,
        requirements,
    }
}

/// What [`security_defect_fixed`] builds.
pub open spec fn security_defect_fixed_model() -> EpistemicContractModel {
    root_contract(
        "security_defect_fixed"@,
        seq![
            single_item(
                "regression_test_exit_code"@,
                RequirementLevelModel::Required,
                EvidenceKind::ExitCode,
                seq![TrustClass::HostObserved.deep_view()],
                FreshnessWindow::Perishable { max_age_seconds: 3600 },
                IndependenceRuleModel::Unconstrained,
                seq![SignalClass::ProcessResult.deep_view()],
                None,
            ),
            single_item(
                "human_security_review"@,
                RequirementLevelModel::Required,
                EvidenceKind::TranscriptExcerpt,
                seq![TrustClass::HumanReviewed.deep_view()],
                FreshnessWindow::Durable,
                IndependenceRuleModel::MustBeIndependentOf(seq!["regression_test_exit_code"@]),
                Seq::empty(),
                Some("security-defect claims require a human-reviewed disposition, not agent self-attestation alone"@),
            ),
        ],
    )
}

/// A security defect is fixed: a regression test and a human's review.
pub fn security_defect_fixed() -> (r: EpistemicContract)
    ensures
        r.deep_view() == security_defect_fixed_model(),
{
    let first = EvidenceRequirement {
        id: "regression_test_exit_code".to_owned(),
        level: RequirementLevel::Required,
        evidence_kind: EvidenceKind::ExitCode,
        acceptable_trust_classes: vec![TrustClass::HostObserved],
        freshness: FreshnessWindow::Perishable { max_age_seconds: 3600 },
        independence: IndependenceRule::Unconstrained,
        min_coverage: CoverageRequirement::single(),
        capability_prerequisites: vec![SignalClass::ProcessResult],
        policy_context: None,
    };
    assert(first.deep_view() =~~= security_defect_fixed_model().requirements[0]);
    let second = EvidenceRequirement {
        id: "human_security_review".to_owned(),
        level: RequirementLevel::Required,
        evidence_kind: EvidenceKind::TranscriptExcerpt,
        acceptable_trust_classes: vec![TrustClass::HumanReviewed],
        freshness: FreshnessWindow::Durable,
        independence: IndependenceRule::MustBeIndependentOf(vec!["regression_test_exit_code".to_owned()]),
        min_coverage: CoverageRequirement::single(),
        capability_prerequisites: Vec::new(),
        policy_context: Some("security-defect claims require a human-reviewed disposition, not agent self-attestation alone".to_owned()),
    };
    assert(second.deep_view() =~~= security_defect_fixed_model().requirements[1]);
    let requirements = vec![first, second];
    assert(requirements.deep_view() =~= security_defect_fixed_model().requirements);
    EpistemicContract {
        claim_class: ClaimClassId::new("security_defect_fixed", 1),
        schema_version: EPISTEMIC_CONTRACT_SCHEMA_VERSION,
        parent: None,
        requirements,
    }
}

/// What [`all`] lists.
pub open spec fn all_models() -> Seq<EpistemicContractModel> {
    seq![
        tests_passed_model(),
        build_succeeded_model(),
        file_changed_model(),
        commit_push_completed_model(),
        deployment_healthy_model(),
        security_defect_fixed_model(),
    ]
}

/// All six contracts.
pub fn all() -> (r: Vec<EpistemicContract>)
    ensures
        r.deep_view() == all_models(),
{
    let r = vec![
        tests_passed(),
        build_succeeded(),
        file_changed(),
        commit_push_completed(),
        deployment_healthy(),
        security_defect_fixed(),
    ];
    assert(r.deep_view() =~= all_models());
    r
}

/// Every one of the contracts can be registered: each of its requirements
/// could be met by something.
pub proof fn law_representative_contracts_are_valid(i: int)
    requires
        0 <= i < all_models().len(),
    ensures
        contract_problem(all_models()[i]) is None,
{
    reveal_with_fuel(contract_problem_from, 3);
}

/// What a registry holds once contracts are registered one after another.
pub open spec fn registered(contracts: Seq<EpistemicContractModel>) -> Map<
    ClaimClassIdModel,
    EpistemicContractModel,
>
    decreases contracts.len(),
{
    if contracts.len() == 0 {
        Map::empty()
    } else {
        registered(contracts.drop_last()).insert(contracts.last().claim_class, contracts.last())
    }
}

proof fn lemma_registered(contracts: Seq<EpistemicContractModel>, i: int)
    requires
        0 <= i < contracts.len(),
        forall|k: int|
            0 <= k < contracts.len() && (#[trigger] contracts[k]).claim_class
                == contracts[i].claim_class ==> contracts[k] == contracts[i],
    ensures
        registered(contracts).dom().finite(),
        registered(contracts).dom().contains(contracts[i].claim_class),
        registered(contracts)[contracts[i].claim_class] == contracts[i],
    decreases contracts.len(),
{
    let front = contracts.drop_last();
    lemma_registered_finite(contracts);
    if contracts.last().claim_class == contracts[i].claim_class {
        assert(contracts[contracts.len() - 1] == contracts[i]);
    } else {
        assert(front[i] == contracts[i]);
        assert forall|k: int|
            0 <= k < front.len() && (#[trigger] front[k]).claim_class
                == front[i].claim_class implies front[k] == front[i] by {
            assert(front[k] == contracts[k]);
        }
        lemma_registered(front, i);
    }
}

proof fn lemma_registered_finite(contracts: Seq<EpistemicContractModel>)
    ensures
        registered(contracts).dom().finite(),
    decreases contracts.len(),
{
    if contracts.len() > 0 {
        lemma_registered_finite(contracts.drop_last());
    }
}

/// The six contracts are for different kinds of claim, inherit from none, and
/// their requirements have different `id`s.
pub proof fn law_representative_contracts_stand_alone(i: int, j: int)
    requires
        0 <= i < all_models().len(),
        0 <= j < all_models().len(),
    ensures
        all_models().len() == 6,
        i != j ==> all_models()[i].claim_class != all_models()[j].claim_class,
        all_models()[i].claim_class.version == 1,
        all_models()[i].parent is None,
        ids_differ(all_models()[i].requirements),
{
    reveal_strlit("tests_passed");
    reveal_strlit("build_succeeded");
    reveal_strlit("file_changed");
    reveal_strlit("commit_push_completed");
    reveal_strlit("deployment_healthy");
    reveal_strlit("security_defect_fixed");
    reveal_strlit("test_runner_exit_code");
    reveal_strlit("provider_tool_result_corroboration");
    reveal_strlit("vcs_operation_observed");
    reveal_strlit("remote_ref_independent_confirmation");
    reveal_strlit("regression_test_exit_code");
    reveal_strlit("human_security_review");
    let a = all_models()[i].claim_class.name;
    let b = all_models()[j].claim_class.name;
    if i != j && a == b {
        assert(a.len() == b.len());
        assert(a[0] == b[0]);
    }
    assert("test_runner_exit_code"@.len() != "provider_tool_result_corroboration"@.len());
    assert("vcs_operation_observed"@.len() != "remote_ref_independent_confirmation"@.len());
    assert("regression_test_exit_code"@.len() != "human_security_review"@.len());
}

/// Once all six contracts are registered, in whatever order, each resolves to
/// exactly its own requirements.
pub proof fn law_representative_contracts_resolve_to_themselves(
    order: Seq<EpistemicContractModel>,
    i: int,
)
    requires
        order.to_multiset() == all_models().to_multiset(),
        0 <= i < all_models().len(),
    ensures
        effective(registered(order), all_models()[i].claim_class) matches Ok(m) && in_key_order(
            m,
        ).to_multiset() == all_models()[i].requirements.to_multiset(),
{
    broadcast use vstd::seq_lib::group_to_multiset_ensures;

    let all = all_models();
    assert(all.contains(all[i]));
    assert(all.to_multiset().contains(all[i]));
    assert(order.to_multiset().contains(all[i]));
    assert(order.contains(all[i]));
    let at = choose|k: int| 0 <= k < order.len() && order[k] == all[i];
    assert forall|k: int|
        0 <= k < order.len() && (#[trigger] order[k]).claim_class
            == order[at].claim_class implies order[k] == order[at] by {
        assert(order.contains(order[k]));
        assert(order.to_multiset().contains(order[k]));
        assert(all.to_multiset().contains(order[k]));
        assert(all.contains(order[k]));
        let j = choose|j: int| 0 <= j < all.len() && all[j] == order[k];
        law_representative_contracts_stand_alone(i, j);
    }
    lemma_registered(order, at);
    law_representative_contracts_stand_alone(i, i);
    law_root_contracts_resolve_to_themselves(registered(order), all[i].claim_class);
}

/// What the contracts have in common. Each is of the first version and inherits
/// nothing. Its first requirement is required and stands alone; a further one
/// must be independent of the first. Each asks for one item.
pub proof fn law_representative_contracts_share_their_form(i: int, k: int)
    requires
        0 <= i < all_models().len(),
        0 <= k < all_models()[i].requirements.len(),
    ensures
        ({
            let c = all_models()[i];
            let r = c.requirements[k];
            &&& c.claim_class.version == 1 && c.schema_version == 1 && c.parent is None
            &&& c.requirements.len() <= 2
            &&& r.min_coverage.min_items == 1
            &&& k == 0 ==> r.level is Required && r.independence is Unconstrained
            &&& k == 1 ==> (r.independence matches IndependenceRuleModel::MustBeIndependentOf(ids)
                && ids.len() == 1 && ids[0] == c.requirements[0].id)
        }),
{
}

/// Whom the contracts believe. Exit codes count only as the host saw them and
/// for an hour, and need a runtime that reports processes; what a person is to
/// have reviewed only from a person. What an outside system is to confirm goes
/// stale. The agent's own word counts for changes to files, and beyond that is
/// only ever recommended.
pub proof fn law_representative_contracts_believe_the_right_sources(i: int, k: int)
    requires
        0 <= i < all_models().len(),
        0 <= k < all_models()[i].requirements.len(),
    ensures
        ({
            let r = all_models()[i].requirements[k];
            let trusted = r.acceptable_trust_classes;
            &&& r.evidence_kind is ExitCode ==> r.level is Required && trusted.len() == 1
                && trusted[0] == known_tag(1) && r.freshness == (FreshnessWindow::Perishable {
                max_age_seconds: 3600,
            }) && r.capability_prerequisites.len() == 1 && r.capability_prerequisites[0]
                == known_tag(3)
            &&& !(r.evidence_kind is ExitCode) ==> r.capability_prerequisites.len() == 0
            &&& r.evidence_kind is TranscriptExcerpt ==> r.level is Required && trusted.len() == 1
                && trusted[0] == known_tag(3) && r.freshness is Durable
            &&& r.freshness is Perishable <==> r.evidence_kind is ExitCode || trusted.contains(
                known_tag(2),
            )
            &&& trusted.contains(known_tag(0)) <==> r.evidence_kind is FileDiff || r.level is Recommended
            &&& trusted.contains(known_tag(3)) <==> r.evidence_kind is TranscriptExcerpt
            &&& r.evidence_kind is FileDiff ==> trusted.contains(known_tag(1))
            &&& r.evidence_kind is FileDiff || trusted.len() == 1
            &&& r.policy_context is Some <==> trusted.contains(known_tag(2)) || trusted.contains(
                known_tag(3),
            )
        }),
{
    let trusted = all_models()[i].requirements[k].acceptable_trust_classes;
    assert(trusted.len() == 1 || trusted.len() == 2);
    assert(trusted[0] == trusted[0]);
    assert(forall|n: int| known_tag(n).index == n);
    if trusted.len() == 1 {
        assert forall|t: Tag| #[trigger] trusted.contains(t) == (t == trusted[0]) by {
            if t == trusted[0] {
                assert(trusted.contains(trusted[0]));
            }
        }
    } else {
        assert forall|t: Tag| #[trigger]
            trusted.contains(t) == (t == trusted[0] || t == trusted[1]) by {
            if t == trusted[0] {
                assert(trusted.contains(trusted[0]));
            }
            if t == trusted[1] {
                assert(trusted.contains(trusted[1]));
            }
        }
    }
}

} // verus!

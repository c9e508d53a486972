//! How evidence was obtained: observed, replayed, or produced by an
//! intervention. Passive evidence cannot be passed off as the product of an
//! experiment.
use vstd::prelude::*;
use vstd::utf8::encode_utf8;

use crate::experiment::{
    outcome_relation, CompletedExperiment, CompletedExperimentModel, ExperimentOutcome,
    ExperimentOutcomeModel, ExperimentResult, ExperimentResultModel,
};
use crate::graph::{EvidenceLink, EvidenceLinkModel, EvidenceRelation};
use crate::ident::{
    law_identifiers_are_told_apart, law_identifiers_are_written_in_full, uuid_text, uuid_v5, Uuid,
};
use crate::model::{lemma_deep_push, Deep};
use crate::text::{decimal, law_decimal_stands_for_its_number, to_decimal};

verus! {

/// The namespace the identifiers of causal links are derived in.
pub const CAUSAL_LINK_NAMESPACE: u128 = 0x2b6f841a9d334c8eb2710a5e4d9c631f;

/// The name a causal link's identifier is derived from.
pub open spec fn link_name(experiment_id: Uuid, version: u32, tag: Seq<char>) -> Seq<char> {
    uuid_text(experiment_id) + ":"@ + decimal(version as int) + ":"@ + tag
}

/// The identifier of a causal link.
pub open spec fn link_id(experiment_id: Uuid, version: u32, tag: Seq<char>) -> Uuid {
    Uuid(uuid_v5(CAUSAL_LINK_NAMESPACE, encode_utf8(link_name(experiment_id, version, tag))))
}

fn causal_link_id(experiment_id: Uuid, experiment_version: u32, tag: &str) -> (r: Uuid)
    ensures
        r == link_id(experiment_id, experiment_version, tag@),
{
    let name = experiment_id.to_text().concat(":").concat(
        to_decimal(experiment_version as u64).as_str(),
    ).concat(":").concat(tag);
    let bytes = name.as_str().as_bytes_vec();
    Uuid::new_v5(&Uuid::from_u128(CAUSAL_LINK_NAMESPACE), bytes.as_slice())
}

/// Which experiment produced a piece of evidence, and the evidence on both
/// sides of it. Neither side is ever empty.
#[derive(Debug, PartialEq, Eq)]
pub struct InterventionalProvenance {
    experiment_id: Uuid,
    experiment_version: u32,
    baseline_evidence_ids: Vec<Uuid>,
    intervention_evidence_ids: Vec<Uuid>,
}

/// The mathematical value of an [`InterventionalProvenance`].
#[verifier::ext_equal]
pub struct InterventionalProvenanceModel {
    pub experiment_id: Uuid,
    pub experiment_version: u32,
    pub baseline_evidence_ids: Seq<Uuid>,
    pub intervention_evidence_ids: Seq<Uuid>,
}

impl DeepView for InterventionalProvenance {
    type V = InterventionalProvenanceModel;

    closed spec fn deep_view(&self) -> InterventionalProvenanceModel {
        InterventionalProvenanceModel {
            experiment_id: self.experiment_id,
            experiment_version: self.experiment_version,
            baseline_evidence_ids: self.baseline_evidence_ids.deep_view(),
            intervention_evidence_ids: self.intervention_evidence_ids.deep_view(),
        }
    }
}

impl Deep for InterventionalProvenance {
    fn deep_clone(&self) -> (r: Self) {
        proof {
            use_type_invariant(self);
        }
        let baseline_evidence_ids = self.baseline_evidence_ids.deep_clone();
        let intervention_evidence_ids = self.intervention_evidence_ids.deep_clone();
        assert(baseline_evidence_ids.deep_view().len() == baseline_evidence_ids@.len());
        assert(intervention_evidence_ids.deep_view().len() == intervention_evidence_ids@.len());
        InterventionalProvenance {
            experiment_id: self.experiment_id,
            experiment_version: self.experiment_version,
            baseline_evidence_ids,
            intervention_evidence_ids,
        }
    }

    fn deep_eq(&self, other: &Self) -> (r: bool) {
        self.experiment_id.deep_eq(&other.experiment_id)
            && self.experiment_version == other.experiment_version
            && self.baseline_evidence_ids.deep_eq(&other.baseline_evidence_ids)
            && self.intervention_evidence_ids.deep_eq(&other.intervention_evidence_ids)
    }
}

impl Clone for InterventionalProvenance {
    fn clone(&self) -> (r: Self)
        ensures
            r.deep_view() == self.deep_view(),
    {
        self.deep_clone()
    }
}

/// The wire form of a provenance record; nothing of it has been checked.
#[derive(Debug, Clone, PartialEq, Eq)]
pub struct InterventionalProvenanceWire {
    pub experiment_id: Uuid,
    pub experiment_version: u32,
    pub baseline_evidence_ids: Vec<Uuid>,
    pub intervention_evidence_ids: Vec<Uuid>,
}

/// Why a provenance record over these lists is refused.
pub open spec fn provenance_problem(
    baseline_evidence_ids: Seq<Uuid>,
    intervention_evidence_ids: Seq<Uuid>,
) -> Option<Seq<char>> {
    if baseline_evidence_ids.len() == 0 {
        Some("InterventionalProvenance requires at least one baseline evidence id"@)
    } else if intervention_evidence_ids.len() == 0 {
        Some("InterventionalProvenance requires at least one intervention evidence id"@)
    } else {
        None
    }
}

impl InterventionalProvenance {
    #[verifier::type_invariant]
    spec fn wf(&self) -> bool {
        self.baseline_evidence_ids@.len() > 0 && self.intervention_evidence_ids@.len() > 0
    }

    /// The only way to make a record: both lists must name evidence.
    pub fn new(
        experiment_id: Uuid,
        experiment_version: u32,
        baseline_evidence_ids: Vec<Uuid>,
        intervention_evidence_ids: Vec<Uuid>,
    ) -> (r: Result<Self, String>)
        ensures
            match r {
                Ok(p) => provenance_problem(
                    baseline_evidence_ids.deep_view(),
                    intervention_evidence_ids.deep_view(),
                ) is None && p.deep_view() == (InterventionalProvenanceModel {
                    experiment_id,
                    experiment_version,
                    baseline_evidence_ids: baseline_evidence_ids.deep_view(),
                    intervention_evidence_ids: intervention_evidence_ids.deep_view(),
                }),
                Err(message) => provenance_problem(
                    baseline_evidence_ids.deep_view(),
                    intervention_evidence_ids.deep_view(),
                ) == Some(message@),
            },
    {
        if baseline_evidence_ids.is_empty() {
            return Err(
                "InterventionalProvenance requires at least one baseline evidence id".to_owned(),
            );
        }
        if intervention_evidence_ids.is_empty() {
            return Err(
                "InterventionalProvenance requires at least one intervention evidence id".to_owned(),
            );
        }
        Ok(
            InterventionalProvenance {
                experiment_id,
                experiment_version,
                baseline_evidence_ids,
                intervention_evidence_ids,
            },
        )
    }

    /// Reads a wire form, under the same condition as [`Self::new`].
    pub fn try_from_wire(w: InterventionalProvenanceWire) -> (r: Result<Self, String>)
        ensures
            match r {
                Ok(p) => provenance_problem(
                    w.baseline_evidence_ids.deep_view(),
                    w.intervention_evidence_ids.deep_view(),
                ) is None && p.deep_view() == (InterventionalProvenanceModel {
                    experiment_id: w.experiment_id,
                    experiment_version: w.experiment_version,
                    baseline_evidence_ids: w.baseline_evidence_ids.deep_view(),
                    intervention_evidence_ids: w.intervention_evidence_ids.deep_view(),
                }),
                Err(message) => provenance_problem(
                    w.baseline_evidence_ids.deep_view(),
                    w.intervention_evidence_ids.deep_view(),
                ) == Some(message@),
            },
    {
        InterventionalProvenance::new(
            w.experiment_id,
            w.experiment_version,
            w.baseline_evidence_ids,
            w.intervention_evidence_ids,
        )
    }

    pub fn experiment_id(&self) -> (r: Uuid)
        ensures
            r == self.deep_view().experiment_id,
    {
        self.experiment_id
    }

    pub fn experiment_version(&self) -> (r: u32)
        ensures
            r == self.deep_view().experiment_version,
    {
        self.experiment_version
    }

    /// The evidence for the state before the intervention.
    pub fn baseline_evidence_ids(&self) -> (r: &Vec<Uuid>)
        ensures
            r.deep_view() == self.deep_view().baseline_evidence_ids,
            r@.len() > 0,
    {
        proof {
            use_type_invariant(self);
        }
        &self.baseline_evidence_ids
    }

    /// The evidence the intervention produced.
    pub fn intervention_evidence_ids(&self) -> (r: &Vec<Uuid>)
        ensures
            r.deep_view() == self.deep_view().intervention_evidence_ids,
            r@.len() > 0,
    {
        proof {
            use_type_invariant(self);
        }
        &self.intervention_evidence_ids
    }
}

/// How a piece of evidence was obtained.
#[derive(Debug, Clone, PartialEq, Eq)]
pub enum EvidenceProvenanceClass {
    /// Passively observed.
    Observational,
    /// Derived again from a recorded run; still passive.
    Replayed { manifest_id: Uuid },
    /// Produced by an experiment's intervention.
    Interventional(InterventionalProvenance),
}

/// The mathematical value of an [`EvidenceProvenanceClass`].
#[verifier::ext_equal]
pub enum EvidenceProvenanceClassModel {
    Observational,
    Replayed { manifest_id: Uuid },
    Interventional(InterventionalProvenanceModel),
}

impl DeepView for EvidenceProvenanceClass {
    type V = EvidenceProvenanceClassModel;

    open spec fn deep_view(&self) -> EvidenceProvenanceClassModel {
        match self {
            EvidenceProvenanceClass::Observational => EvidenceProvenanceClassModel::Observational,
            EvidenceProvenanceClass::Replayed { manifest_id } => EvidenceProvenanceClassModel::Replayed {
                manifest_id: *manifest_id,
            },
            EvidenceProvenanceClass::Interventional(p) => EvidenceProvenanceClassModel::Interventional(
                p.deep_view(),
            ),
        }
    }
}

impl EvidenceProvenanceClass {
    /// Whether the evidence was produced by an intervention.
    pub fn is_interventional(&self) -> (r: bool)
        ensures
            r == (self is Interventional),
    {
        match self {
            EvidenceProvenanceClass::Interventional(_) => true,
            _ => false,
        }
    }
}

/// A link from a claim to evidence, with how the evidence was obtained.
#[derive(Debug, Clone, PartialEq, Eq)]
pub struct CausalEvidenceLink {
    pub link: EvidenceLink,
    pub provenance: EvidenceProvenanceClass,
}

/// The mathematical value of a [`CausalEvidenceLink`].
#[verifier::ext_equal]
pub struct CausalEvidenceLinkModel {
    pub link: EvidenceLinkModel,
    pub provenance: EvidenceProvenanceClassModel,
}

impl DeepView for CausalEvidenceLink {
    type V = CausalEvidenceLinkModel;

    open spec fn deep_view(&self) -> CausalEvidenceLinkModel {
        CausalEvidenceLinkModel {
            link: self.link.deep_view(),
            provenance: self.provenance.deep_view(),
        }
    }
}

/// An experiment's result as evidence. Only `Completed` carries links and a
/// relation.
#[derive(Debug, Clone, PartialEq, Eq)]
pub enum CausalExperimentEvidence {
    Completed { relation: EvidenceRelation, baseline_links: Vec<CausalEvidenceLink>, intervention_links: Vec<CausalEvidenceLink> },
    Inconclusive { reason: String },
    Blocked { reason: String },
    Unsupported { reason: String },
    Failed { reason: String },
}

/// The mathematical value of a [`CausalExperimentEvidence`].
#[verifier::ext_equal]
pub enum CausalExperimentEvidenceModel {
    Completed { relation: EvidenceRelation, baseline_links: Seq<CausalEvidenceLinkModel>, intervention_links: Seq<CausalEvidenceLinkModel> },
    Inconclusive { reason: Seq<char> },
    Blocked { reason: Seq<char> },
    Unsupported { reason: Seq<char> },
    Failed { reason: Seq<char> },
}

impl DeepView for CausalExperimentEvidence {
    type V = CausalExperimentEvidenceModel;

    open spec fn deep_view(&self) -> CausalExperimentEvidenceModel {
        match self {
            CausalExperimentEvidence::Completed { relation, baseline_links, intervention_links } => CausalExperimentEvidenceModel::Completed {
                relation: relation.deep_view(),
                baseline_links: baseline_links.deep_view(),
                intervention_links: intervention_links.deep_view(),
            },
            CausalExperimentEvidence::Inconclusive { reason } => CausalExperimentEvidenceModel::Inconclusive {
                reason: reason.deep_view(),
            },
            CausalExperimentEvidence::Blocked { reason } => CausalExperimentEvidenceModel::Blocked {
                reason: reason.deep_view(),
            },
            CausalExperimentEvidence::Unsupported { reason } => CausalExperimentEvidenceModel::Unsupported {
                reason: reason.deep_view(),
            },
            CausalExperimentEvidence::Failed { reason } => CausalExperimentEvidenceModel::Failed {
                reason: reason.deep_view(),
            },
        }
    }
}

/// The comparison a piece of causal evidence carries.
pub open spec fn causal_relation(evidence: CausalExperimentEvidenceModel) -> Option<
    EvidenceRelation,
> {
    match evidence {
        CausalExperimentEvidenceModel::Completed { relation, .. } => Some(relation),
        _ => None,
    }
}

impl CausalExperimentEvidence {
    /// The comparison carried: that of a completed run, and none otherwise.
    pub fn hypothesis_relation(&self) -> (r: Option<EvidenceRelation>)
        ensures
            r == causal_relation(self.deep_view()),
            r is Some == self is Completed,
    {
        match self {
            CausalExperimentEvidence::Completed { relation, .. } => Some(*relation),
            CausalExperimentEvidence::Inconclusive { .. } => None,
            CausalExperimentEvidence::Blocked { .. } => None,
            CausalExperimentEvidence::Unsupported { .. } => None,
            CausalExperimentEvidence::Failed { .. } => None,
        }
    }
}

/// The provenance of what a completed run's intervention produced.
pub open spec fn run_provenance(
    result: ExperimentResultModel,
    completed: CompletedExperimentModel,
) -> InterventionalProvenanceModel {
    InterventionalProvenanceModel {
        experiment_id: result.experiment_id,
        experiment_version: result.experiment_version,
        baseline_evidence_ids: completed.baseline_evidence_ids,
        intervention_evidence_ids: completed.intervention_evidence_ids,
    }
}

/// The link to one piece of evidence of a completed run. `side` is the prefix
/// that sets the identifiers of the two sides apart.
pub open spec fn run_link(
    result: ExperimentResultModel,
    claim_id: Uuid,
    session_id: Seq<char>,
    side: Seq<char>,
    evidence_id: Uuid,
    relation: EvidenceRelation,
    provenance: EvidenceProvenanceClassModel,
) -> CausalEvidenceLinkModel {
    CausalEvidenceLinkModel {
        link: EvidenceLinkModel {
            id: link_id(
                result.experiment_id,
                result.experiment_version,
                side + uuid_text(evidence_id),
            ),
            session_id,
            claim_id,
            evidence_id,
            relation,
            linked_at: result.computed_at,
        },
        provenance,
    }
}

/// The links to the evidence before the intervention: passive, and neutral.
pub open spec fn baseline_links_of(
    result: ExperimentResultModel,
    completed: CompletedExperimentModel,
    session_id: Seq<char>,
) -> Seq<CausalEvidenceLinkModel> {
    Seq::new(
        completed.baseline_evidence_ids.len(),
        |i: int|
            run_link(
                result,
                completed.hypothesis_claim_id,
                session_id,
                "baseline:"@,
                completed.baseline_evidence_ids[i],
                EvidenceRelation::Neutral,
                EvidenceProvenanceClassModel::Observational,
            ),
    )
}

/// The links to the evidence the intervention produced: they carry the run's
/// relation and its provenance.
pub open spec fn intervention_links_of(
    result: ExperimentResultModel,
    completed: CompletedExperimentModel,
    session_id: Seq<char>,
) -> Seq<CausalEvidenceLinkModel> {
    Seq::new(
        completed.intervention_evidence_ids.len(),
        |i: int|
            run_link(
                result,
                completed.hypothesis_claim_id,
                session_id,
                "intervention:"@,
                completed.intervention_evidence_ids[i],
                completed.hypothesis_relation,
                EvidenceProvenanceClassModel::Interventional(run_provenance(result, completed)),
            ),
    )
}

/// An experiment's result as evidence.
pub open spec fn causal_evidence(result: ExperimentResultModel, session_id: Seq<char>) -> Result<
    CausalExperimentEvidenceModel,
    Seq<char>,
> {
    match result.outcome {
        ExperimentOutcomeModel::Completed(completed) => match provenance_problem(
            completed.baseline_evidence_ids,
            completed.intervention_evidence_ids,
        ) {
            Some(problem) => Err(problem),
            None => Ok(
                CausalExperimentEvidenceModel::Completed {
                    relation: completed.hypothesis_relation,
                    baseline_links: baseline_links_of(result, completed, session_id),
                    intervention_links: intervention_links_of(result, completed, session_id),
                },
            ),
        },
        ExperimentOutcomeModel::Inconclusive { reason } => Ok(
            CausalExperimentEvidenceModel::Inconclusive { reason },
        ),
        ExperimentOutcomeModel::Blocked { reason } => Ok(
            CausalExperimentEvidenceModel::Blocked { reason },
        ),
        ExperimentOutcomeModel::Unsupported { reason } => Ok(
            CausalExperimentEvidenceModel::Unsupported { reason },
        ),
        ExperimentOutcomeModel::Failed { reason } => Ok(
            CausalExperimentEvidenceModel::Failed { reason },
        ),
    }
}

fn link_baseline(result: &ExperimentResult, completed: &CompletedExperiment, session_id: &str) -> (r:
    Vec<CausalEvidenceLink>)
    ensures
        r.deep_view() == baseline_links_of(
            result.deep_view(),
            completed.deep_view(),
            session_id@,
        ),
{
    let ids = &completed.baseline_evidence_ids;
    let ghost expected = baseline_links_of(result.deep_view(), completed.deep_view(), session_id@);
    let mut links: Vec<CausalEvidenceLink> = Vec::new();
    let mut i: usize = 0;
    assert(links.deep_view() =~= expected.take(0));
    while i < ids.len()
        invariant
            i <= ids.len(),
            ids == completed.baseline_evidence_ids,
            expected == baseline_links_of(result.deep_view(), completed.deep_view(), session_id@),
            expected.len() == ids.len(),
            links.deep_view() == expected.take(i as int),
        decreases ids.len() - i,
    {
        let evidence_id = ids[i];
        assert(completed.deep_view().baseline_evidence_ids[i as int] == evidence_id);
        let tag = "baseline:".to_owned().concat(evidence_id.to_text().as_str());
        let link = CausalEvidenceLink {
            link: EvidenceLink {
                id: causal_link_id(result.experiment_id, result.experiment_version, tag.as_str()),
                session_id: session_id.to_owned(),
                claim_id: completed.hypothesis_claim_id,
                evidence_id,
                relation: EvidenceRelation::Neutral,
                linked_at: result.computed_at.clone(),
            },
            provenance: EvidenceProvenanceClass::Observational,
        };
        assert(link.deep_view() =~= expected[i as int]);
        let ghost before = links;
        links.push(link);
        proof {
            lemma_deep_push(before, links, link);
            assert(expected.take(i as int + 1) =~= expected.take(i as int).push(expected[i as int]));
        }
        i = i + 1;
    }
    assert(expected.take(expected.len() as int) =~= expected);
    links
}

fn link_intervention(
    result: &ExperimentResult,
    completed: &CompletedExperiment,
    provenance: &InterventionalProvenance,
    session_id: &str,
) -> (r: Vec<CausalEvidenceLink>)
    requires
        provenance.deep_view() == run_provenance(result.deep_view(), completed.deep_view()),
    ensures
        r.deep_view() == intervention_links_of(
            result.deep_view(),
            completed.deep_view(),
            session_id@,
        ),
{
    let ids = &completed.intervention_evidence_ids;
    let ghost expected = intervention_links_of(
        result.deep_view(),
        completed.deep_view(),
        session_id@,
    );
    let mut links: Vec<CausalEvidenceLink> = Vec::new();
    let mut i: usize = 0;
    assert(links.deep_view() =~= expected.take(0));
    while i < ids.len()
        invariant
            i <= ids.len(),
            ids == completed.intervention_evidence_ids,
            provenance.deep_view() == run_provenance(result.deep_view(), completed.deep_view()),
            expected == intervention_links_of(
                result.deep_view(),
                completed.deep_view(),
                session_id@,
            ),
            expected.len() == ids.len(),
            links.deep_view() == expected.take(i as int),
        decreases ids.len() - i,
    {
        let evidence_id = ids[i];
        assert(completed.deep_view().intervention_evidence_ids[i as int] == evidence_id);
        let tag = "intervention:".to_owned().concat(evidence_id.to_text().as_str());
        let link = CausalEvidenceLink {
            link: EvidenceLink {
                id: causal_link_id(result.experiment_id, result.experiment_version, tag.as_str()),
                session_id: session_id.to_owned(),
                claim_id: completed.hypothesis_claim_id,
                evidence_id,
                relation: completed.hypothesis_relation,
                linked_at: result.computed_at.clone(),
            },
            provenance: EvidenceProvenanceClass::Interventional(provenance.deep_clone()),
        };
        assert(link.deep_view() =~= expected[i as int]);
        let ghost before = links;
        links.push(link);
        proof {
            lemma_deep_push(before, links, link);
            assert(expected.take(i as int + 1) =~= expected.take(i as int).push(expected[i as int]));
        }
        i = i + 1;
    }
    assert(expected.take(expected.len() as int) =~= expected);
    links
}

/// Reads an experiment's result as evidence. Every time comes from the result
/// and every identifier is derived, so the same result always gives the same
/// evidence. A completed run without evidence on both sides is an error: it
/// is not turned into another outcome.
pub fn causal_evidence_from_experiment_result(result: &ExperimentResult, session_id: &str) -> (r:
    Result<CausalExperimentEvidence, String>)
    ensures
        match r {
            Ok(evidence) => causal_evidence(result.deep_view(), session_id@) == Ok::<
                CausalExperimentEvidenceModel,
                Seq<char>,
            >(evidence.deep_view()),
            Err(message) => causal_evidence(result.deep_view(), session_id@) == Err::<
                CausalExperimentEvidenceModel,
                Seq<char>,
            >(message@),
        },
{
    match &result.outcome {
        ExperimentOutcome::Completed(completed) => {
            let provenance = match InterventionalProvenance::new(
                result.experiment_id,
                result.experiment_version,
                completed.baseline_evidence_ids.deep_clone(),
                completed.intervention_evidence_ids.deep_clone(),
            ) {
                Ok(p) => p,
                Err(message) => {
                    return Err(message);
                },
            };
            let baseline_links = link_baseline(result, completed, session_id);
            let intervention_links = link_intervention(result, completed, &provenance, session_id);
            Ok(
                CausalExperimentEvidence::Completed {
                    relation: completed.hypothesis_relation,
                    baseline_links,
                    intervention_links,
                },
            )
        },
        ExperimentOutcome::Inconclusive { reason } => Ok(
            CausalExperimentEvidence::Inconclusive { reason: reason.clone() },
        ),
        ExperimentOutcome::Blocked { reason } => Ok(
            CausalExperimentEvidence::Blocked { reason: reason.clone() },
        ),
        ExperimentOutcome::Unsupported { reason } => Ok(
            CausalExperimentEvidence::Unsupported { reason: reason.clone() },
        ),
        ExperimentOutcome::Failed { reason } => Ok(
            CausalExperimentEvidence::Failed { reason: reason.clone() },
        ),
    }
}

/// Reading a result as evidence keeps its comparison: the evidence carries
/// the relation the outcome carries, and none where the outcome carries none.
pub proof fn law_causal_evidence_keeps_the_relation(
    result: ExperimentResultModel,
    session_id: Seq<char>,
)
    ensures
        causal_evidence(result, session_id) is Ok ==> causal_relation(
            causal_evidence(result, session_id)->Ok_0,
        ) == outcome_relation(result.outcome),
{
}

/// Evidence marked as produced by an intervention leads back to its
/// experiment and to the evidence on both sides of it.
pub proof fn law_interventional_links_are_traceable(
    result: ExperimentResultModel,
    session_id: Seq<char>,
    i: int,
)
    requires
        causal_evidence(result, session_id) is Ok,
        causal_evidence(result, session_id)->Ok_0 is Completed,
        0 <= i < causal_evidence(result, session_id)->Ok_0->intervention_links.len(),
    ensures
        causal_evidence(result, session_id)->Ok_0->intervention_links[i].provenance
            is Interventional,
        ({
            let p =
                causal_evidence(result, session_id)->Ok_0->intervention_links[i].provenance->Interventional_0;
            &&& p.experiment_id == result.experiment_id
            &&& p.experiment_version == result.experiment_version
            &&& p.baseline_evidence_ids.len() > 0
            &&& p.intervention_evidence_ids.contains(
                causal_evidence(result, session_id)->Ok_0->intervention_links[i].link.evidence_id,
            )
        }),
{
    let completed = result.outcome->Completed_0;
    assert(completed.intervention_evidence_ids[i]
        == intervention_links_of(result, completed, session_id)[i].link.evidence_id);
}

/// Evidence from before an intervention is never marked as produced by it.
pub proof fn law_baseline_links_stay_passive(
    result: ExperimentResultModel,
    session_id: Seq<char>,
    i: int,
)
    requires
        causal_evidence(result, session_id) is Ok,
        causal_evidence(result, session_id)->Ok_0 is Completed,
        0 <= i < causal_evidence(result, session_id)->Ok_0->baseline_links.len(),
    ensures
        causal_evidence(result, session_id)->Ok_0->baseline_links[i].provenance is Observational,
        causal_evidence(result, session_id)->Ok_0->baseline_links[i].link.relation
            == EvidenceRelation::Neutral,
{
}

/// Whether a link joins evidence to the claim an experiment was about.
pub open spec fn joins(
    link: EvidenceLinkModel,
    result: ExperimentResultModel,
    completed: CompletedExperimentModel,
    session_id: Seq<char>,
    evidence_id: Uuid,
) -> bool {
    &&& link.session_id == session_id
    &&& link.claim_id == completed.hypothesis_claim_id
    &&& link.evidence_id == evidence_id
    &&& link.linked_at == result.computed_at
}

/// A completed experiment gives one link for each item of evidence, in order:
/// neutral ones for what was there before, and ones with the experiment's
/// finding for what the intervention produced. It must have some of both.
pub proof fn law_completed_experiments_link_all_their_evidence(
    result: ExperimentResultModel,
    completed: CompletedExperimentModel,
    session_id: Seq<char>,
)
    requires
        result.outcome == ExperimentOutcomeModel::Completed(completed),
    ensures
        ({
            let before = completed.baseline_evidence_ids;
            let after = completed.intervention_evidence_ids;
            match causal_evidence(result, session_id) {
                Err(_) => before.len() == 0 || after.len() == 0,
                Ok(e) => before.len() > 0 && after.len() > 0 && (e
                    matches CausalExperimentEvidenceModel::Completed {
                    relation,
                    baseline_links,
                    intervention_links,
                } && relation == completed.hypothesis_relation && baseline_links.len()
                    == before.len() && intervention_links.len() == after.len() && (forall|i: int|
                    0 <= i < before.len() ==> joins(
                        (#[trigger] baseline_links[i]).link,
                        result,
                        completed,
                        session_id,
                        before[i],
                    ) && baseline_links[i].link.id == link_id(
                        result.experiment_id,
                        result.experiment_version,
                        "baseline:"@ + uuid_text(before[i]),
                    ) && baseline_links[i].link.relation is Neutral
                        && baseline_links[i].provenance is Observational) && (forall|i: int|
                    0 <= i < after.len() ==> joins(
                        (#[trigger] intervention_links[i]).link,
                        result,
                        completed,
                        session_id,
                        after[i],
                    ) && intervention_links[i].link.id == link_id(
                        result.experiment_id,
                        result.experiment_version,
                        "intervention:"@ + uuid_text(after[i]),
                    ) && intervention_links[i].link.relation == completed.hypothesis_relation && (
                    intervention_links[i].provenance
                        matches EvidenceProvenanceClassModel::Interventional(p) && p.experiment_id
                        == result.experiment_id && p.experiment_version == result.experiment_version
                        && p.baseline_evidence_ids == before && p.intervention_evidence_ids
                        == after))),
            }
        }),
{
}

/// An experiment that did not complete links nothing: what became of it is
/// handed on, with its reason.
pub proof fn law_incomplete_experiments_keep_their_reason(
    result: ExperimentResultModel,
    session_id: Seq<char>,
)
    ensures
        match result.outcome {
            ExperimentOutcomeModel::Completed(_) => true,
            ExperimentOutcomeModel::Inconclusive { reason } => causal_evidence(result, session_id)
                == Ok::<_, Seq<char>>(CausalExperimentEvidenceModel::Inconclusive { reason }),
            ExperimentOutcomeModel::Blocked { reason } => causal_evidence(result, session_id)
                == Ok::<_, Seq<char>>(CausalExperimentEvidenceModel::Blocked { reason }),
            ExperimentOutcomeModel::Unsupported { reason } => causal_evidence(result, session_id)
                == Ok::<_, Seq<char>>(CausalExperimentEvidenceModel::Unsupported { reason }),
            ExperimentOutcomeModel::Failed { reason } => causal_evidence(result, session_id)
                == Ok::<_, Seq<char>>(CausalExperimentEvidenceModel::Failed { reason }),
        },
{
}

/// The name of a link tells the experiment, its version and the item apart: no
/// two of them share a name.
pub proof fn law_links_are_named_apart(
    a: Uuid,
    v: u32,
    s: Seq<char>,
    b: Uuid,
    w: u32,
    t: Seq<char>,
)
    requires
        link_name(a, v, s) == link_name(b, w, t),
    ensures
        a == b,
        v == w,
        s == t,
{
    reveal_strlit(":");
    law_identifiers_are_written_in_full(a);
    law_identifiers_are_written_in_full(b);
    law_decimal_stands_for_its_number(v as int);
    law_decimal_stands_for_its_number(w as int);
    let x = link_name(a, v, s);
    let y = link_name(b, w, t);
    let dv = decimal(v as int);
    let dw = decimal(w as int);
    let m = dv.len() as int;
    let n = dw.len() as int;
    assert(x.subrange(0, 36) =~= uuid_text(a));
    assert(y.subrange(0, 36) =~= uuid_text(b));
    law_identifiers_are_told_apart(a, b);
    assert forall|i: int| 0 <= i < dv.len() implies #[trigger] x[37 + i] == dv[i] by {}
    assert forall|i: int| 0 <= i < dw.len() implies #[trigger] y[37 + i] == dw[i] by {}
    assert(x[37 + m] == ':');
    assert(y[37 + n] == ':');
    if m < n {
        assert(y[37 + m] == dw[m]);
        assert(false);
    }
    if n < m {
        assert(x[37 + n] == dv[n]);
        assert(false);
    }
    assert(x.subrange(37, 37 + m) =~= dv);
    assert(y.subrange(37, 37 + n) =~= dw);
    assert(x.subrange(38 + m, x.len() as int) =~= s);
    assert(y.subrange(38 + n, y.len() as int) =~= t);
}

} // verus!

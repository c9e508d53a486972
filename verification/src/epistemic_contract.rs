//! Proof obligations: for a kind of claim, which evidence should exist, and
//! whether the evidence at hand meets that bar. A claim whose kind is not
//! known never passes.
use vstd::prelude::*;

use crate::capabilities::SignalClass;
use crate::evidence::{Claim, Evidence, EvidenceKind};
use crate::graph::{
    staleness, staleness_of, FreshnessWindow, StalenessAssessment, StalenessModel,
};
use crate::ident::Uuid;
use crate::model::{known_tag, lemma_deep_push, vec_contains, Deep, Tag};
use crate::order::{
    entry_keys, key_before, law_sorted_members_are_canonical, lemma_key_irreflexive,
    lemma_sorted_map_keys, listing, OrderKey, Ordered, Sortable, SortedMap,
};
use crate::sensor::TrustClass;
use crate::text::str_before;
use crate::time::{parse_rfc3339, rfc3339};

pub mod assessment_laws;
pub mod inheritance_laws;
pub mod representative_contracts;

verus! {

/// Version of the [`EpistemicContract`] shape.
pub const EPISTEMIC_CONTRACT_SCHEMA_VERSION: u32 = 1;

/// The contract versions this library reads.
pub const SUPPORTED_EPISTEMIC_CONTRACT_SCHEMA_VERSIONS: [u32; 1] = [1];

/// The stable, versioned identity of a kind of claim.
#[derive(Debug, Clone, PartialEq, Eq, PartialOrd, Ord, Hash)]
pub struct ClaimClassId {
    pub name: String,
    pub version: u32,
}

/// The mathematical value of a [`ClaimClassId`].
#[verifier::ext_equal]
pub struct ClaimClassIdModel {
    pub name: Seq<char>,
    pub version: u32,
}

impl DeepView for ClaimClassId {
    type V = ClaimClassIdModel;

    open spec fn deep_view(&self) -> ClaimClassIdModel {
        ClaimClassIdModel {
            name: self.name.deep_view(),
            version: self.version.deep_view(),
        }
    }
}

impl Deep for ClaimClassId {
    fn deep_clone(&self) -> (r: Self) {
        ClaimClassId {
            name: self.name.deep_clone(),
            version: self.version.deep_clone(),
        }
    }

    fn deep_eq(&self, other: &Self) -> (r: bool) {
        self.name.deep_eq(&other.name)
            && self.version.deep_eq(&other.version)
    }
}

impl ClaimClassId {
    pub fn new(name: &str, version: u32) -> (r: Self)
        ensures
            r.deep_view() == (ClaimClassIdModel { name: name@, version }),
    {
        ClaimClassId { name: name.to_owned(), version }
    }
}

impl Sortable for ClaimClassId {
    open spec fn sort_key(v: ClaimClassIdModel) -> OrderKey {
        OrderKey { rank: 0, text: v.name, tail: v.version as int }
    }

    fn sorts_before(&self, other: &Self) -> (r: bool) {
        if self.name.deep_eq(&other.name) {
            proof {
                crate::text::lemma_text_irreflexive(self.name@);
            }
            self.version < other.version
        } else {
            str_before(self.name.as_str(), other.name.as_str())
        }
    }
}

impl Ordered for ClaimClassId {
    proof fn key_is_injective(a: ClaimClassIdModel, b: ClaimClassIdModel) {
    }
}

/// How far the evidence for a claim meets one requirement.
#[derive(Debug, Clone, PartialEq, Eq)]
pub enum SatisfactionState {
    /// Kind, trust, freshness and coverage are all met.
    Satisfied,
    /// Relevant evidence exists and does not meet the requirement: its trust
    /// class is wrong, or there is too little of it.
    Unsatisfied,
    /// No relevant evidence exists at all.
    Unavailable,
    /// Relevant evidence exists and is too old, or was observed after the
    /// claim.
    Stale,
    /// Relevant evidence contradicts the claim.
    Contradicted,
    /// The requirement does not apply to this claim.
    NotApplicable,
    /// Nothing could be determined: the claim class is not known, or a time
    /// that decides on freshness cannot be read. Never a substitute for
    /// `Satisfied`.
    Unknown,
    /// A value this binary does not recognise, kept as it was written.
    Unrecognized(String),
}

impl DeepView for SatisfactionState {
    type V = Tag;

    open spec fn deep_view(&self) -> Tag {
        match self {
            SatisfactionState::Satisfied => known_tag(0),
            SatisfactionState::Unsatisfied => known_tag(1),
            SatisfactionState::Unavailable => known_tag(2),
            SatisfactionState::Stale => known_tag(3),
            SatisfactionState::Contradicted => known_tag(4),
            SatisfactionState::NotApplicable => known_tag(5),
            SatisfactionState::Unknown => known_tag(6),
            SatisfactionState::Unrecognized(s) => Tag { index: 7, text: s@ },
        }
    }
}

impl SatisfactionState {
    fn index(&self) -> (r: u8)
        ensures
            r == self.deep_view().index,
    {
        match self {
            SatisfactionState::Satisfied => 0,
            SatisfactionState::Unsatisfied => 1,
            SatisfactionState::Unavailable => 2,
            SatisfactionState::Stale => 3,
            SatisfactionState::Contradicted => 4,
            SatisfactionState::NotApplicable => 5,
            SatisfactionState::Unknown => 6,
            SatisfactionState::Unrecognized(_) => 7,
        }
    }

    /// The name a value is written under.
    pub open spec fn wire_text(v: Tag) -> Seq<char> {
        if v.index == 0 {
            "satisfied"@
        } else if v.index == 1 {
            "unsatisfied"@
        } else if v.index == 2 {
            "unavailable"@
        } else if v.index == 3 {
            "stale"@
        } else if v.index == 4 {
            "contradicted"@
        } else if v.index == 5 {
            "not_applicable"@
        } else if v.index == 6 {
            "unknown"@
        } else {
            v.text
        }
    }

    /// The name this value is written under.
    pub fn wire_tag(&self) -> (r: String)
        ensures
            r@ == Self::wire_text(self.deep_view()),
    {
        match self {
            SatisfactionState::Satisfied => "satisfied".to_owned(),
            SatisfactionState::Unsatisfied => "unsatisfied".to_owned(),
            SatisfactionState::Unavailable => "unavailable".to_owned(),
            SatisfactionState::Stale => "stale".to_owned(),
            SatisfactionState::Contradicted => "contradicted".to_owned(),
            SatisfactionState::NotApplicable => "not_applicable".to_owned(),
            SatisfactionState::Unknown => "unknown".to_owned(),
            SatisfactionState::Unrecognized(s) => s.clone(),
        }
    }
}

impl Deep for SatisfactionState {
    fn deep_clone(&self) -> (r: Self) {
        match self {
            SatisfactionState::Satisfied => SatisfactionState::Satisfied,
            SatisfactionState::Unsatisfied => SatisfactionState::Unsatisfied,
            SatisfactionState::Unavailable => SatisfactionState::Unavailable,
            SatisfactionState::Stale => SatisfactionState::Stale,
            SatisfactionState::Contradicted => SatisfactionState::Contradicted,
            SatisfactionState::NotApplicable => SatisfactionState::NotApplicable,
            SatisfactionState::Unknown => SatisfactionState::Unknown,
            SatisfactionState::Unrecognized(s) => SatisfactionState::Unrecognized(s.clone()),
        }
    }

    fn deep_eq(&self, other: &Self) -> (r: bool) {
        match (self, other) {
            (SatisfactionState::Unrecognized(a), SatisfactionState::Unrecognized(b)) => *a == *b,
            _ => self.index() == other.index(),
        }
    }
}

/// How strictly a requirement binds.
#[derive(Debug, Clone, PartialEq, Eq)]
pub enum RequirementLevel {
    /// Must be satisfied.
    Required,
    /// Never blocks.
    Recommended,
    /// Binds where its condition is among those that hold for the claim.
    Conditional { condition: String },
}

/// The mathematical value of a [`RequirementLevel`].
#[verifier::ext_equal]
pub enum RequirementLevelModel {
    Required,
    Recommended,
    Conditional { condition: Seq<char> },
}

impl DeepView for RequirementLevel {
    type V = RequirementLevelModel;

    open spec fn deep_view(&self) -> RequirementLevelModel {
        match self {
            RequirementLevel::Required => RequirementLevelModel::Required,
            RequirementLevel::Recommended => RequirementLevelModel::Recommended,
            RequirementLevel::Conditional { condition } => RequirementLevelModel::Conditional {
                condition: condition.deep_view(),
            },
        }
    }
}

impl Deep for RequirementLevel {
    fn deep_clone(&self) -> (r: Self) {
        match self {
            RequirementLevel::Required => RequirementLevel::Required,
            RequirementLevel::Recommended => RequirementLevel::Recommended,
            RequirementLevel::Conditional { condition } => RequirementLevel::Conditional {
                condition: condition.deep_clone(),
            },
        }
    }

    fn deep_eq(&self, other: &Self) -> (r: bool) {
        match (self, other) {
            (RequirementLevel::Required, RequirementLevel::Required) => true,
            (RequirementLevel::Recommended, RequirementLevel::Recommended) => true,
            (
                RequirementLevel::Conditional { condition: a0 },
                RequirementLevel::Conditional { condition: b0 },
            ) => a0.deep_eq(b0),
            _ => false,
        }
    }
}

/// How strict a level is: only `Required` is stricter than the others.
pub open spec fn strictness(level: RequirementLevelModel) -> int {
    match level {
        RequirementLevelModel::Required => 2,
        RequirementLevelModel::Recommended => 1,
        RequirementLevelModel::Conditional { .. } => 1,
    }
}

impl RequirementLevel {
    fn strictness_rank(&self) -> (r: u8)
        ensures
            r == strictness(self.deep_view()),
    {
        match self {
            RequirementLevel::Required => 2,
            RequirementLevel::Recommended => 1,
            RequirementLevel::Conditional { .. } => 1,
        }
    }
}

/// Which requirements' evidence a requirement may not share.
#[derive(Debug, Clone, PartialEq, Eq)]
pub enum IndependenceRule {
    Unconstrained,
    /// Evidence that meets this requirement may not be evidence that meets one of
    /// those named.
    MustBeIndependentOf(Vec<String>),
}

/// The mathematical value of a [`IndependenceRule`].
#[verifier::ext_equal]
pub enum IndependenceRuleModel {
    Unconstrained,
    MustBeIndependentOf(Seq<Seq<char>>),
}

impl DeepView for IndependenceRule {
    type V = IndependenceRuleModel;

    open spec fn deep_view(&self) -> IndependenceRuleModel {
        match self {
            IndependenceRule::Unconstrained => IndependenceRuleModel::Unconstrained,
            IndependenceRule::MustBeIndependentOf(v) => IndependenceRuleModel::MustBeIndependentOf(v.deep_view()),
        }
    }
}

impl Deep for IndependenceRule {
    fn deep_clone(&self) -> (r: Self) {
        match self {
            IndependenceRule::Unconstrained => IndependenceRule::Unconstrained,
            IndependenceRule::MustBeIndependentOf(v) => IndependenceRule::MustBeIndependentOf(v.deep_clone()),
        }
    }

    fn deep_eq(&self, other: &Self) -> (r: bool) {
        match (self, other) {
            (IndependenceRule::Unconstrained, IndependenceRule::Unconstrained) => true,
            (IndependenceRule::MustBeIndependentOf(a), IndependenceRule::MustBeIndependentOf(b)) => a.deep_eq(b),
            _ => false,
        }
    }
}

impl Default for IndependenceRule {
    fn default() -> (r: Self)
        ensures
            r is Unconstrained,
    {
        IndependenceRule::Unconstrained
    }
}

/// How many pieces of evidence a requirement needs.
#[derive(Debug, Clone, Copy, PartialEq, Eq, Structural)]
pub struct CoverageRequirement {
    pub min_items: u32,
}

impl DeepView for CoverageRequirement {
    type V = CoverageRequirement;

    open spec fn deep_view(&self) -> CoverageRequirement {
        *self
    }
}

impl Deep for CoverageRequirement {
    fn deep_clone(&self) -> (r: Self) {
        *self
    }

    fn deep_eq(&self, other: &Self) -> (r: bool) {
        *self == *other
    }
}

impl CoverageRequirement {
    pub fn single() -> (r: Self)
        ensures
            r == (CoverageRequirement { min_items: 1 }),
    {
        CoverageRequirement { min_items: 1 }
    }
}

/// One proof obligation.
#[derive(Debug, Clone, PartialEq, Eq)]
pub struct EvidenceRequirement {
    /// Unique within its contract and what inherits from it.
    pub id: String,
    pub level: RequirementLevel,
    pub evidence_kind: EvidenceKind,
    /// Where acceptable evidence may come from.
    pub acceptable_trust_classes: Vec<TrustClass>,
    pub freshness: FreshnessWindow,
    pub independence: IndependenceRule,
    pub min_coverage: CoverageRequirement,
    pub capability_prerequisites: Vec<SignalClass>,
    pub policy_context: Option<String>,
}

/// The mathematical value of a [`EvidenceRequirement`].
#[verifier::ext_equal]
pub struct EvidenceRequirementModel {
    pub id: Seq<char>,
    pub level: RequirementLevelModel,
    pub evidence_kind: EvidenceKind,
    pub acceptable_trust_classes: Seq<Tag>,
    pub freshness: FreshnessWindow,
    pub independence: IndependenceRuleModel,
    pub min_coverage: CoverageRequirement,
    pub capability_prerequisites: Seq<Tag>,
    pub policy_context: Option<Seq<char>>,
}

impl DeepView for EvidenceRequirement {
    type V = EvidenceRequirementModel;

    open spec fn deep_view(&self) -> EvidenceRequirementModel {
        EvidenceRequirementModel {
            id: self.id.deep_view(),
            level: self.level.deep_view(),
            evidence_kind: self.evidence_kind.deep_view(),
            acceptable_trust_classes: self.acceptable_trust_classes.deep_view(),
            freshness: self.freshness.deep_view(),
            independence: self.independence.deep_view(),
            min_coverage: self.min_coverage.deep_view(),
            capability_prerequisites: self.capability_prerequisites.deep_view(),
            policy_context: self.policy_context.deep_view(),
        }
    }
}

impl Deep for EvidenceRequirement {
    fn deep_clone(&self) -> (r: Self) {
        EvidenceRequirement {
            id: self.id.deep_clone(),
            level: self.level.deep_clone(),
            evidence_kind: self.evidence_kind.deep_clone(),
            acceptable_trust_classes: self.acceptable_trust_classes.deep_clone(),
            freshness: self.freshness.deep_clone(),
            independence: self.independence.deep_clone(),
            min_coverage: self.min_coverage.deep_clone(),
            capability_prerequisites: self.capability_prerequisites.deep_clone(),
            policy_context: self.policy_context.deep_clone(),
        }
    }

    fn deep_eq(&self, other: &Self) -> (r: bool) {
        self.id.deep_eq(&other.id)
            && self.level.deep_eq(&other.level)
            && self.evidence_kind.deep_eq(&other.evidence_kind)
            && self.acceptable_trust_classes.deep_eq(&other.acceptable_trust_classes)
            && self.freshness.deep_eq(&other.freshness)
            && self.independence.deep_eq(&other.independence)
            && self.min_coverage.deep_eq(&other.min_coverage)
            && self.capability_prerequisites.deep_eq(&other.capability_prerequisites)
            && self.policy_context.deep_eq(&other.policy_context)
    }
}

/// The proof obligations of one kind of claim.
#[derive(Debug, Clone, PartialEq, Eq)]
pub struct EpistemicContract {
    pub claim_class: ClaimClassId,
    pub schema_version: u32,
    /// The contract this one inherits from.
    pub parent: Option<ClaimClassId>,
    /// What this contract declares itself. A requirement overrides the inherited one
    /// of the same `id`; what is not mentioned is inherited unchanged.
    pub requirements: Vec<EvidenceRequirement>,
}

/// The mathematical value of a [`EpistemicContract`].
#[verifier::ext_equal]
pub struct EpistemicContractModel {
    pub claim_class: ClaimClassIdModel,
    pub schema_version: u32,
    pub parent: Option<ClaimClassIdModel>,
    pub requirements: Seq<EvidenceRequirementModel>,
}

impl DeepView for EpistemicContract {
    type V = EpistemicContractModel;

    open spec fn deep_view(&self) -> EpistemicContractModel {
        EpistemicContractModel {
            claim_class: self.claim_class.deep_view(),
            schema_version: self.schema_version.deep_view(),
            parent: self.parent.deep_view(),
            requirements: self.requirements.deep_view(),
        }
    }
}

impl Deep for EpistemicContract {
    fn deep_clone(&self) -> (r: Self) {
        EpistemicContract {
            claim_class: self.claim_class.deep_clone(),
            schema_version: self.schema_version.deep_clone(),
            parent: self.parent.deep_clone(),
            requirements: self.requirements.deep_clone(),
        }
    }

    fn deep_eq(&self, other: &Self) -> (r: bool) {
        self.claim_class.deep_eq(&other.claim_class)
            && self.schema_version.deep_eq(&other.schema_version)
            && self.parent.deep_eq(&other.parent)
            && self.requirements.deep_eq(&other.requirements)
    }
}

/// Why a contract is refused or cannot be resolved.
#[derive(Debug, Clone, PartialEq, Eq)]
pub enum ContractError {
    /// A child redefines an inherited requirement with a weaker level, a lower
    /// coverage, or without a trust class that the parent accepts.
    WeakenedRequirement { claim_class: ClaimClassId, requirement_id: String, reason: &'static str },
    /// Nothing could ever meet the requirement.
    UnsatisfiableRequirement { claim_class: ClaimClassId, requirement_id: String, reason: &'static str },
    /// A contract inherits from itself.
    InheritanceCycle { claim_class: ClaimClassId },
    /// A contract that is needed is not registered.
    MissingParent { claim_class: ClaimClassId, parent: ClaimClassId },
}

/// The mathematical value of a [`ContractError`].
#[verifier::ext_equal]
pub enum ContractErrorModel {
    WeakenedRequirement { claim_class: ClaimClassIdModel, requirement_id: Seq<char>, reason: Seq<char> },
    UnsatisfiableRequirement { claim_class: ClaimClassIdModel, requirement_id: Seq<char>, reason: Seq<char> },
    InheritanceCycle { claim_class: ClaimClassIdModel },
    MissingParent { claim_class: ClaimClassIdModel, parent: ClaimClassIdModel },
}

impl DeepView for ContractError {
    type V = ContractErrorModel;

    open spec fn deep_view(&self) -> ContractErrorModel {
        match self {
            ContractError::WeakenedRequirement { claim_class, requirement_id, reason } => ContractErrorModel::WeakenedRequirement {
                claim_class: claim_class.deep_view(),
                requirement_id: requirement_id.deep_view(),
                reason: reason.deep_view(),
            },
            ContractError::UnsatisfiableRequirement { claim_class, requirement_id, reason } => ContractErrorModel::UnsatisfiableRequirement {
                claim_class: claim_class.deep_view(),
                requirement_id: requirement_id.deep_view(),
                reason: reason.deep_view(),
            },
            ContractError::InheritanceCycle { claim_class } => ContractErrorModel::InheritanceCycle {
                claim_class: claim_class.deep_view(),
            },
            ContractError::MissingParent { claim_class, parent } => ContractErrorModel::MissingParent {
                claim_class: claim_class.deep_view(),
                parent: parent.deep_view(),
            },
        }
    }
}

/// Why a requirement cannot be met by anything.
pub open spec fn requirement_problem(
    claim_class: ClaimClassIdModel,
    req: EvidenceRequirementModel,
) -> Option<ContractErrorModel> {
    if req.level is Required && req.acceptable_trust_classes.len() == 0 {
        Some(
            ContractErrorModel::UnsatisfiableRequirement {
                claim_class,
                requirement_id: req.id,
                reason: "Required requirement names zero acceptable trust classes"@,
            },
        )
    } else if req.min_coverage.min_items == 0 {
        Some(
            ContractErrorModel::UnsatisfiableRequirement {
                claim_class,
                requirement_id: req.id,
                reason: "min_coverage.min_items must be at least 1"@,
            },
        )
    } else {
        None
    }
}

/// The first problem among a contract's requirements from `i` on.
pub open spec fn contract_problem_from(contract: EpistemicContractModel, i: int) -> Option<
    ContractErrorModel,
>
    decreases contract.requirements.len() - i,
{
    if i < 0 || i >= contract.requirements.len() {
        None
    } else {
        match requirement_problem(contract.claim_class, contract.requirements[i]) {
            Some(e) => Some(e),
            None => contract_problem_from(contract, i + 1),
        }
    }
}

/// The first problem of a contract.
pub open spec fn contract_problem(contract: EpistemicContractModel) -> Option<ContractErrorModel> {
    contract_problem_from(contract, 0)
}

impl EpistemicContract {
    /// Whether every requirement could be met by something, on its own.
    pub fn validate(&self) -> (r: Result<(), ContractError>)
        ensures
            match r {
                Ok(_) => contract_problem(self.deep_view()) is None,
                Err(e) => contract_problem(self.deep_view()) == Some(e.deep_view()),
            },
    {
        let mut i: usize = 0;
        while i < self.requirements.len()
            invariant
                i <= self.requirements.len(),
                contract_problem(self.deep_view()) == contract_problem_from(
                    self.deep_view(),
                    i as int,
                ),
            decreases self.requirements.len() - i,
        {
            let req = &self.requirements[i];
            assert(self.deep_view().requirements[i as int] == req.deep_view());
            let required = match req.level {
                RequirementLevel::Required => true,
                _ => false,
            };
            if required && req.acceptable_trust_classes.is_empty() {
                return Err(
                    ContractError::UnsatisfiableRequirement {
                        claim_class: self.claim_class.deep_clone(),
                        requirement_id: req.id.clone(),
                        reason: "Required requirement names zero acceptable trust classes",
                    },
                );
            }
            if req.min_coverage.min_items == 0 {
                return Err(
                    ContractError::UnsatisfiableRequirement {
                        claim_class: self.claim_class.deep_clone(),
                        requirement_id: req.id.clone(),
                        reason: "min_coverage.min_items must be at least 1",
                    },
                );
            }
            i = i + 1;
        }
        Ok(())
    }
}

/// Whether `child` accepts every trust class `parent` accepts.
pub open spec fn keeps_trust_classes(child: Seq<Tag>, parent: Seq<Tag>) -> bool {
    forall|i: int| 0 <= i < parent.len() ==> child.contains(#[trigger] parent[i])
}

/// How a requirement falls short of the one it overrides.
pub open spec fn weakening(
    claim_class: ClaimClassIdModel,
    parent: EvidenceRequirementModel,
    req: EvidenceRequirementModel,
) -> Option<ContractErrorModel> {
    if strictness(req.level) < strictness(parent.level) {
        Some(
            ContractErrorModel::WeakenedRequirement {
                claim_class,
                requirement_id: req.id,
                reason: "child requirement level is weaker than the inherited level"@,
            },
        )
    } else if req.min_coverage.min_items < parent.min_coverage.min_items {
        Some(
            ContractErrorModel::WeakenedRequirement {
                claim_class,
                requirement_id: req.id,
                reason: "child min_coverage is lower than the inherited min_coverage"@,
            },
        )
    } else if !keeps_trust_classes(
        req.acceptable_trust_classes,
        parent.acceptable_trust_classes,
    ) {
        Some(
            ContractErrorModel::WeakenedRequirement {
                claim_class,
                requirement_id: req.id,
                reason: if parent.level is Required {
                    "child acceptable_trust_classes drops a trust class the inherited Required requirement accepted"@
                } else {
                    "child acceptable_trust_classes drops a trust class the inherited requirement accepted"@
                },
            },
        )
    } else {
        None
    }
}

/// A contract's requirements from `i` on, laid over those merged so far; each
/// is held against the requirements the contract inherits.
pub open spec fn composed_from(
    claim_class: ClaimClassIdModel,
    parents: Map<Seq<char>, EvidenceRequirementModel>,
    own: Seq<EvidenceRequirementModel>,
    i: int,
    merged: Map<Seq<char>, EvidenceRequirementModel>,
) -> Result<Map<Seq<char>, EvidenceRequirementModel>, ContractErrorModel>
    decreases own.len() - i,
{
    if i < 0 || i >= own.len() {
        Ok(merged)
    } else if parents.dom().contains(own[i].id) && weakening(
        claim_class,
        parents[own[i].id],
        own[i],
    ) is Some {
        Err(weakening(claim_class, parents[own[i].id], own[i]).unwrap())
    } else {
        composed_from(claim_class, parents, own, i + 1, merged.insert(own[i].id, own[i]))
    }
}

/// A contract's requirements laid over those it inherits, by `id`.
pub open spec fn composed(
    claim_class: ClaimClassIdModel,
    parents: Map<Seq<char>, EvidenceRequirementModel>,
    own: Seq<EvidenceRequirementModel>,
) -> Result<Map<Seq<char>, EvidenceRequirementModel>, ContractErrorModel> {
    composed_from(claim_class, parents, own, 0, parents)
}

fn trust_classes_kept(child: &Vec<TrustClass>, parent: &Vec<TrustClass>) -> (r: bool)
    ensures
        r == keeps_trust_classes(child.deep_view(), parent.deep_view()),
{
    let ghost pv = parent.deep_view();
    let ghost cv = child.deep_view();
    let mut i: usize = 0;
    while i < parent.len()
        invariant
            i <= parent.len(),
            pv == parent.deep_view(),
            cv == child.deep_view(),
            forall|j: int| 0 <= j < i ==> cv.contains(#[trigger] pv[j]),
        decreases parent.len() - i,
    {
        assert(pv[i as int] == parent@[i as int].deep_view());
        if !vec_contains(child, &parent[i]) {
            return false;
        }
        i = i + 1;
    }
    true
}

fn find_weakening(
    claim_class: &ClaimClassId,
    parent: &EvidenceRequirement,
    req: &EvidenceRequirement,
) -> (r: Option<ContractError>)
    ensures
        r.deep_view() == weakening(claim_class.deep_view(), parent.deep_view(), req.deep_view()),
{
    let parent_required = match parent.level {
        RequirementLevel::Required => true,
        _ => false,
    };
    let reason = if req.level.strictness_rank() < parent.level.strictness_rank() {
        "child requirement level is weaker than the inherited level"
    } else if req.min_coverage.min_items < parent.min_coverage.min_items {
        "child min_coverage is lower than the inherited min_coverage"
    } else if !trust_classes_kept(
        &req.acceptable_trust_classes,
        &parent.acceptable_trust_classes,
    ) {
        if parent_required {
            "child acceptable_trust_classes drops a trust class the inherited Required requirement accepted"
        } else {
            "child acceptable_trust_classes drops a trust class the inherited requirement accepted"
        }
    } else {
        return None;
    };
    Some(
        ContractError::WeakenedRequirement {
            claim_class: claim_class.deep_clone(),
            requirement_id: req.id.clone(),
            reason,
        },
    )
}

/// Lays a contract's own requirements over those it inherits. A requirement
/// that falls short of the one it overrides is refused.
pub fn compose(
    claim_class: &ClaimClassId,
    parents: SortedMap<String, EvidenceRequirement>,
    own: &Vec<EvidenceRequirement>,
) -> (r: Result<SortedMap<String, EvidenceRequirement>, ContractError>)
    ensures
        match r {
            Ok(m) => composed(claim_class.deep_view(), parents.deep_view(), own.deep_view())
                == Ok::<_, ContractErrorModel>(m.deep_view()),
            Err(e) => composed(claim_class.deep_view(), parents.deep_view(), own.deep_view())
                == Err::<Map<Seq<char>, EvidenceRequirementModel>, _>(e.deep_view()),
        },
{
    let ghost cv = claim_class.deep_view();
    let ghost pv = parents.deep_view();
    let ghost ov = own.deep_view();
    let mut merged = parents.deep_clone();
    let mut i: usize = 0;
    while i < own.len()
        invariant
            i <= own.len(),
            cv == claim_class.deep_view(),
            pv == parents.deep_view(),
            ov == own.deep_view(),
            composed(cv, pv, ov) == composed_from(cv, pv, ov, i as int, merged.deep_view()),
        decreases own.len() - i,
    {
        let req = &own[i];
        assert(ov[i as int] == req.deep_view());
        if let Some(parent) = parents.get(&req.id) {
            if let Some(e) = find_weakening(claim_class, parent, req) {
                return Err(e);
            }
        }
        merged = merged.with(req.id.clone(), req.deep_clone());
        i = i + 1;
    }
    Ok(merged)
}

/// Every known contract, by the kind of claim it is for.
#[derive(Debug, Clone, PartialEq, Eq)]
pub struct ContractRegistry {
    contracts: SortedMap<ClaimClassId, EpistemicContract>,
}

impl DeepView for ContractRegistry {
    type V = Map<ClaimClassIdModel, EpistemicContractModel>;

    closed spec fn deep_view(&self) -> Map<ClaimClassIdModel, EpistemicContractModel> {
        self.contracts.deep_view()
    }
}

/// What a registry holds for a kind of claim.
#[derive(Debug, Clone, PartialEq, Eq)]
pub enum ContractLookup<'a> {
    Found(&'a EpistemicContract),
    Unknown,
}

/// The contracts from `current` up to its root, behind those already seen on
/// the way from `target`. A contract that comes up again is a cycle, and so is
/// a chain longer than the registry.
pub open spec fn lineage_from(
    registry: Map<ClaimClassIdModel, EpistemicContractModel>,
    target: ClaimClassIdModel,
    seen: Seq<ClaimClassIdModel>,
    current: ClaimClassIdModel,
) -> Result<Seq<ClaimClassIdModel>, ContractErrorModel>
    decreases registry.dom().len() - seen.len(),
{
    if !registry.dom().contains(current) {
        Err(
            ContractErrorModel::MissingParent {
                claim_class: if seen.len() == 0 {
                    target
                } else {
                    seen.last()
                },
                parent: current,
            },
        )
    } else {
        let chain = seen.push(current);
        if chain.len() > registry.dom().len() {
            Err(ContractErrorModel::InheritanceCycle { claim_class: target })
        } else {
            match registry[current].parent {
                None => Ok(chain),
                Some(parent) => if chain.contains(parent) {
                    Err(ContractErrorModel::InheritanceCycle { claim_class: target })
                } else {
                    lineage_from(registry, target, chain, parent)
                },
            }
        }
    }
}

/// The contracts a kind of claim inherits from, itself first.
pub open spec fn lineage(
    registry: Map<ClaimClassIdModel, EpistemicContractModel>,
    target: ClaimClassIdModel,
) -> Result<Seq<ClaimClassIdModel>, ContractErrorModel> {
    lineage_from(registry, target, Seq::empty(), target)
}

/// The requirements of the first `n` contracts of a chain, laid over those
/// merged so far from the last of them to the first.
pub open spec fn inherited_from(
    registry: Map<ClaimClassIdModel, EpistemicContractModel>,
    chain: Seq<ClaimClassIdModel>,
    n: int,
    merged: Map<Seq<char>, EvidenceRequirementModel>,
) -> Result<Map<Seq<char>, EvidenceRequirementModel>, ContractErrorModel>
    decreases n,
{
    if n <= 0 {
        Ok(merged)
    } else {
        match composed(chain[n - 1], merged, registry[chain[n - 1]].requirements) {
            Ok(m) => inherited_from(registry, chain, n - 1, m),
            Err(e) => Err(e),
        }
    }
}

/// The requirements of a kind of claim, inherited ones too, by `id`.
pub open spec fn effective(
    registry: Map<ClaimClassIdModel, EpistemicContractModel>,
    target: ClaimClassIdModel,
) -> Result<Map<Seq<char>, EvidenceRequirementModel>, ContractErrorModel> {
    match lineage(registry, target) {
        Ok(chain) => inherited_from(registry, chain, chain.len() as int, Map::empty()),
        Err(e) => Err(e),
    }
}

/// The values of a map, in the order of their keys.
pub open spec fn in_key_order(m: Map<Seq<char>, EvidenceRequirementModel>) -> Seq<
    EvidenceRequirementModel,
> {
    listing::<String>(m.dom()).map_values(|id: Seq<char>| m[id])
}

fn values_of(m: &SortedMap<String, EvidenceRequirement>) -> (r: Vec<EvidenceRequirement>)
    ensures
        r.deep_view() == in_key_order(m.deep_view()),
{
    let entries = m.as_vec();
    let ghost es = entries.deep_view();
    let ghost expected = in_key_order(m.deep_view());
    let mut out: Vec<EvidenceRequirement> = Vec::new();
    let mut i: usize = 0;
    assert(expected.len() == es.len());
    assert(out.deep_view() =~= expected.take(0));
    while i < entries.len()
        invariant
            i <= entries.len(),
            es == entries.deep_view(),
            expected == in_key_order(m.deep_view()),
            expected.len() == es.len(),
            entry_keys(es) == listing::<String>(m.deep_view().dom()),
            forall|j: int|
                0 <= j < es.len() ==> m.deep_view().dom().contains((#[trigger] es[j]).0)
                    && m.deep_view()[es[j].0] == es[j].1,
            out.deep_view() == expected.take(i as int),
        decreases entries.len() - i,
    {
        let req = entries[i].1.deep_clone();
        assert(es[i as int].1 == req.deep_view());
        assert(entry_keys(es)[i as int] == es[i as int].0);
        assert(expected[i as int] == req.deep_view());
        let ghost before = out;
        out.push(req);
        proof {
            lemma_deep_push(before, out, req);
            assert(expected.take(i as int + 1) =~= expected.take(i as int).push(
                expected[i as int],
            ));
        }
        i = i + 1;
    }
    assert(expected.take(expected.len() as int) =~= expected);
    out
}

impl ContractRegistry {
    /// A registry that knows no contract.
    pub fn new() -> (r: Self)
        ensures
            r.deep_view() == Map::<ClaimClassIdModel, EpistemicContractModel>::empty(),
    {
        ContractRegistry { contracts: SortedMap::new() }
    }

    /// Adds a contract, in place of one for the same kind of claim. A contract
    /// that fails [`EpistemicContract::validate`] is not added.
    pub fn register(&mut self, contract: EpistemicContract) -> (r: Result<(), ContractError>)
        ensures
            match r {
                Ok(_) => contract_problem(contract.deep_view()) is None && final(self).deep_view() == old(self).deep_view().insert(
                    contract.claim_class.deep_view(),
                    contract.deep_view(),
                ),
                Err(e) => contract_problem(contract.deep_view()) == Some(e.deep_view()) && final(self).deep_view() == old(self).deep_view(),
            },
    {
        match contract.validate() {
            Ok(_) => {
                let mut contracts: SortedMap<ClaimClassId, EpistemicContract> = SortedMap::new();
                std::mem::swap(&mut contracts, &mut self.contracts);
                self.contracts = contracts.with(contract.claim_class.deep_clone(), contract);
                Ok(())
            },
            Err(e) => Err(e),
        }
    }

    /// The contract for a kind of claim.
    pub fn lookup(&self, claim_class: &ClaimClassId) -> (r: ContractLookup<'_>)
        ensures
            match r {
                ContractLookup::Found(c) => self.deep_view().dom().contains(claim_class.deep_view())
                    && self.deep_view()[claim_class.deep_view()] == c.deep_view(),
                ContractLookup::Unknown => !self.deep_view().dom().contains(
                    claim_class.deep_view(),
                ),
            },
    {
        match self.contracts.get(claim_class) {
            Some(c) => ContractLookup::Found(c),
            None => ContractLookup::Unknown,
        }
    }

    fn chain_of(&self, claim_class: &ClaimClassId) -> (r: Result<Vec<ClaimClassId>, ContractError>)
        ensures
            match r {
                Ok(chain) => lineage(self.deep_view(), claim_class.deep_view()) == Ok::<
                    _,
                    ContractErrorModel,
                >(chain.deep_view()),
                Err(e) => lineage(self.deep_view(), claim_class.deep_view()) == Err::<
                    Seq<ClaimClassIdModel>,
                    _,
                >(e.deep_view()),
            },
    {
        let ghost rv = self.deep_view();
        let ghost tv = claim_class.deep_view();
        let size = self.contracts.len();
        let mut chain: Vec<ClaimClassId> = Vec::new();
        let mut current = claim_class.deep_clone();
        assert(chain.deep_view() =~= Seq::<ClaimClassIdModel>::empty());
        loop
            invariant
                rv == self.deep_view(),
                tv == claim_class.deep_view(),
                size == rv.dom().len(),
                chain.len() <= size,
                lineage(rv, tv) == lineage_from(rv, tv, chain.deep_view(), current.deep_view()),
            decreases size - chain.len(),
        {
            let ghost seen = chain.deep_view();
            let contract = match self.contracts.get(&current) {
                Some(c) => c,
                None => {
                    let child = if chain.is_empty() {
                        claim_class.deep_clone()
                    } else {
                        assert(seen.last() == chain@[chain.len() - 1].deep_view());
                        chain[chain.len() - 1].deep_clone()
                    };
                    return Err(ContractError::MissingParent { claim_class: child, parent: current });
                },
            };
            let link = current.deep_clone();
            let ghost before = chain;
            chain.push(link);
            proof {
                lemma_deep_push(before, chain, link);
            }
            if chain.len() > size {
                return Err(
                    ContractError::InheritanceCycle { claim_class: claim_class.deep_clone() },
                );
            }
            match &contract.parent {
                None => {
                    return Ok(chain);
                },
                Some(parent) => {
                    if vec_contains(&chain, parent) {
                        return Err(
                            ContractError::InheritanceCycle {
                                claim_class: claim_class.deep_clone(),
                            },
                        );
                    }
                    current = parent.deep_clone();
                },
            }
        }
    }

    /// The requirements of a kind of claim, inherited ones too, in the order
    /// of their identifiers. No contract of the chain may weaken what it
    /// inherits.
    pub fn effective_requirements(&self, claim_class: &ClaimClassId) -> (r: Result<
        Vec<EvidenceRequirement>,
        ContractError,
    >)
        ensures
            match (r, effective(self.deep_view(), claim_class.deep_view())) {
                (Ok(requirements), Ok(m)) => requirements.deep_view() == in_key_order(m),
                (Err(e), Err(m)) => e.deep_view() == m,
                _ => false,
            },
    {
        let chain = match self.chain_of(claim_class) {
            Ok(chain) => chain,
            Err(e) => {
                return Err(e);
            },
        };
        let ghost rv = self.deep_view();
        let ghost cv = chain.deep_view();
        proof {
            lemma_lineage_known(rv, claim_class.deep_view(), Seq::empty(), claim_class.deep_view());
        }
        let mut merged: SortedMap<String, EvidenceRequirement> = SortedMap::new();
        let mut n: usize = chain.len();
        while n > 0
            invariant
                n <= chain.len(),
                rv == self.deep_view(),
                cv == chain.deep_view(),
                forall|i: int| 0 <= i < cv.len() ==> rv.dom().contains(#[trigger] cv[i]),
                effective(rv, claim_class.deep_view()) == inherited_from(
                    rv,
                    cv,
                    n as int,
                    merged.deep_view(),
                ),
            decreases n,
        {
            let link = &chain[n - 1];
            assert(cv[n - 1] == link.deep_view());
            if let Some(contract) = self.contracts.get(link) {
                match compose(link, merged, &contract.requirements) {
                    Ok(m) => {
                        merged = m;
                    },
                    Err(e) => {
                        return Err(e);
                    },
                }
            }
            n = n - 1;
        }
        Ok(values_of(&merged))
    }
}

proof fn lemma_lineage_known(
    registry: Map<ClaimClassIdModel, EpistemicContractModel>,
    target: ClaimClassIdModel,
    seen: Seq<ClaimClassIdModel>,
    current: ClaimClassIdModel,
)
    requires
        forall|i: int| 0 <= i < seen.len() ==> registry.dom().contains(#[trigger] seen[i]),
    ensures
        lineage_from(registry, target, seen, current) matches Ok(chain) ==> forall|i: int|
            0 <= i < chain.len() ==> registry.dom().contains(#[trigger] chain[i]),
    decreases registry.dom().len() - seen.len(),
{
    if registry.dom().contains(current) {
        let chain = seen.push(current);
        if chain.len() <= registry.dom().len() {
            if let Some(parent) = registry[current].parent {
                if !chain.contains(parent) {
                    lemma_lineage_known(registry, target, chain, parent);
                }
            }
        }
    }
}

/// Why a relevant piece of evidence does not count toward a requirement.
#[derive(Debug, Clone, Copy, PartialEq, Eq, Structural)]
pub enum RejectionReason {
    /// Its source is not acceptable, or not recorded.
    WrongTrustClass,
    /// It is too old for the claim.
    Stale,
    /// Its age relative to the claim is unclear.
    IndeterminateFreshness,
    /// A requirement this one must be independent of has claimed it.
    ClaimedByIndependentRequirement,
}

impl DeepView for RejectionReason {
    type V = RejectionReason;

    open spec fn deep_view(&self) -> RejectionReason {
        *self
    }
}

impl Deep for RejectionReason {
    fn deep_clone(&self) -> (r: Self) {
        *self
    }

    fn deep_eq(&self, other: &Self) -> (r: bool) {
        *self == *other
    }
}

/// A relevant piece of evidence that does not count, and why.
#[derive(Debug, Clone, Copy, PartialEq, Eq, Structural)]
pub struct RejectedEvidence {
    pub evidence_id: Uuid,
    pub reason: RejectionReason,
}

impl DeepView for RejectedEvidence {
    type V = RejectedEvidence;

    open spec fn deep_view(&self) -> RejectedEvidence {
        *self
    }
}

/// How one requirement fared.
#[derive(Debug, Clone, PartialEq, Eq)]
pub struct RequirementAssessment {
    pub requirement_id: String,
    pub level: RequirementLevel,
    pub state: SatisfactionState,
    /// The evidence claimed toward the requirement, no more than it needs. Empty
    /// unless the requirement is satisfied.
    pub matched_evidence: Vec<Uuid>,
    /// The evidence of the right kind that did not count, and why.
    pub rejected_evidence: Vec<RejectedEvidence>,
}

/// The mathematical value of a [`RequirementAssessment`].
#[verifier::ext_equal]
pub struct RequirementAssessmentModel {
    pub requirement_id: Seq<char>,
    pub level: RequirementLevelModel,
    pub state: Tag,
    pub matched_evidence: Seq<Uuid>,
    pub rejected_evidence: Seq<RejectedEvidence>,
}

impl DeepView for RequirementAssessment {
    type V = RequirementAssessmentModel;

    open spec fn deep_view(&self) -> RequirementAssessmentModel {
        RequirementAssessmentModel {
            requirement_id: self.requirement_id.deep_view(),
            level: self.level.deep_view(),
            state: self.state.deep_view(),
            matched_evidence: self.matched_evidence.deep_view(),
            rejected_evidence: self.rejected_evidence.deep_view(),
        }
    }
}

/// How a claim fared against its contract.
#[derive(Debug, Clone, PartialEq, Eq)]
pub struct ClaimAssessment {
    pub claim_class: ClaimClassId,
    pub per_requirement: Vec<RequirementAssessment>,
    pub overall: SatisfactionState,
}

/// The mathematical value of a [`ClaimAssessment`].
#[verifier::ext_equal]
pub struct ClaimAssessmentModel {
    pub claim_class: ClaimClassIdModel,
    pub per_requirement: Seq<RequirementAssessmentModel>,
    pub overall: Tag,
}

impl DeepView for ClaimAssessment {
    type V = ClaimAssessmentModel;

    open spec fn deep_view(&self) -> ClaimAssessmentModel {
        ClaimAssessmentModel {
            claim_class: self.claim_class.deep_view(),
            per_requirement: self.per_requirement.deep_view(),
            overall: self.overall.deep_view(),
        }
    }
}

/// A piece of evidence offered for a claim, with the trust class of its
/// source where that is recorded.
#[derive(Debug, Clone, PartialEq, Eq)]
pub struct CandidateEvidence<'a> {
    pub evidence: &'a Evidence,
    pub trust_class: Option<TrustClass>,
}

/// What an assessment reads of a [`CandidateEvidence`].
#[verifier::ext_equal]
pub struct CandidateModel {
    pub id: Uuid,
    pub kind: EvidenceKind,
    pub observed_at: Seq<char>,
    pub trust_class: Option<Tag>,
}

impl<'a> DeepView for CandidateEvidence<'a> {
    type V = CandidateModel;

    open spec fn deep_view(&self) -> CandidateModel {
        CandidateModel {
            id: self.evidence.id,
            kind: self.evidence.kind,
            observed_at: self.evidence.observed_at@,
            trust_class: self.trust_class.deep_view(),
        }
    }
}

/// Whether a trust class is one that a requirement accepts. An unrecorded
/// class never is.
pub open spec fn trust_accepted(req: EvidenceRequirementModel, trust_class: Option<Tag>) -> bool {
    trust_class is Some && req.acceptable_trust_classes.contains(trust_class.unwrap())
}

/// Why a candidate of the right kind does not count, if it does not.
pub open spec fn rejection(
    req: EvidenceRequirementModel,
    claimed_at: Seq<char>,
    excluded: Seq<Uuid>,
    candidate: CandidateModel,
) -> Option<RejectionReason> {
    if excluded.contains(candidate.id) {
        Some(RejectionReason::ClaimedByIndependentRequirement)
    } else if !trust_accepted(req, candidate.trust_class) {
        Some(RejectionReason::WrongTrustClass)
    } else {
        match staleness(candidate.observed_at, claimed_at, req.freshness) {
            StalenessModel::Stale { .. } => Some(RejectionReason::Stale),
            StalenessModel::Indeterminate { .. } => Some(RejectionReason::IndeterminateFreshness),
            StalenessModel::Fresh { .. } => None,
            StalenessModel::NotTimeSensitive => None,
        }
    }
}

/// The candidates that count toward a requirement, in order.
pub open spec fn qualifying(
    req: EvidenceRequirementModel,
    claimed_at: Seq<char>,
    excluded: Seq<Uuid>,
    candidates: Seq<CandidateModel>,
) -> Seq<Uuid>
    decreases candidates.len(),
{
    if candidates.len() == 0 {
        Seq::empty()
    } else {
        let before = qualifying(req, claimed_at, excluded, candidates.drop_last());
        let c = candidates.last();
        if c.kind == req.evidence_kind && rejection(req, claimed_at, excluded, c) is None {
            before.push(c.id)
        } else {
            before
        }
    }
}

/// The candidates of the right kind that do not count, in order, and why.
pub open spec fn rejected(
    req: EvidenceRequirementModel,
    claimed_at: Seq<char>,
    excluded: Seq<Uuid>,
    candidates: Seq<CandidateModel>,
) -> Seq<RejectedEvidence>
    decreases candidates.len(),
{
    if candidates.len() == 0 {
        Seq::empty()
    } else {
        let before = rejected(req, claimed_at, excluded, candidates.drop_last());
        let c = candidates.last();
        match rejection(req, claimed_at, excluded, c) {
            Some(reason) if c.kind == req.evidence_kind => before.push(
                RejectedEvidence { evidence_id: c.id, reason },
            ),
            _ => before,
        }
    }
}

/// Whether some rejection was for age.
pub open spec fn any_stale(rejections: Seq<RejectedEvidence>) -> bool {
    exists|i: int|
        0 <= i < rejections.len() && ((#[trigger] rejections[i]).reason == RejectionReason::Stale
            || rejections[i].reason == RejectionReason::IndeterminateFreshness)
}

/// Whether the freshness of a candidate decides on it and cannot be told,
/// since one of the two times cannot be read.
pub open spec fn undated(
    req: EvidenceRequirementModel,
    claimed_at: Seq<char>,
    excluded: Seq<Uuid>,
    candidate: CandidateModel,
) -> bool {
    &&& candidate.kind == req.evidence_kind
    &&& rejection(req, claimed_at, excluded, candidate) == Some(
        RejectionReason::IndeterminateFreshness,
    )
    &&& rfc3339(candidate.observed_at) is None || rfc3339(claimed_at) is None
}

/// Whether some candidate is [`undated`].
pub open spec fn any_undated(
    req: EvidenceRequirementModel,
    claimed_at: Seq<char>,
    excluded: Seq<Uuid>,
    candidates: Seq<CandidateModel>,
) -> bool {
    exists|i: int|
        0 <= i < candidates.len() && undated(req, claimed_at, excluded, #[trigger] candidates[i])
}

/// The candidates a requirement claims: those that count, and no more of them
/// than it needs.
pub open spec fn claimed(
    req: EvidenceRequirementModel,
    claimed_at: Seq<char>,
    excluded: Seq<Uuid>,
    candidates: Seq<CandidateModel>,
) -> Seq<Uuid> {
    let all = qualifying(req, claimed_at, excluded, candidates);
    if all.len() <= req.min_coverage.min_items {
        all
    } else {
        all.take(req.min_coverage.min_items as int)
    }
}

/// The state of a requirement that applies. Without enough evidence that
/// counts, a time that cannot be read leaves it unknown; otherwise it is stale
/// if some evidence was refused for its age, unsatisfied if there is relevant
/// evidence at all, and unavailable if there is none.
pub open spec fn evaluated(
    req: EvidenceRequirementModel,
    claimed_at: Seq<char>,
    excluded: Seq<Uuid>,
    candidates: Seq<CandidateModel>,
) -> SatisfactionState {
    let rejections = rejected(req, claimed_at, excluded, candidates);
    if qualifying(req, claimed_at, excluded, candidates).len() >= req.min_coverage.min_items {
        SatisfactionState::Satisfied
    } else if any_undated(req, claimed_at, excluded, candidates) {
        SatisfactionState::Unknown
    } else if any_stale(rejections) {
        SatisfactionState::Stale
    } else if rejections.len() > 0 || qualifying(req, claimed_at, excluded, candidates).len() > 0 {
        SatisfactionState::Unsatisfied
    } else {
        SatisfactionState::Unavailable
    }
}

fn judge(
    requirement: &EvidenceRequirement,
    claim: &Claim,
    excluded: &Vec<Uuid>,
    candidate: &CandidateEvidence<'_>,
) -> (r: Option<RejectionReason>)
    ensures
        r == rejection(
            requirement.deep_view(),
            claim.claimed_at@,
            excluded.deep_view(),
            candidate.deep_view(),
        ),
{
    if vec_contains(excluded, &candidate.evidence.id) {
        return Some(RejectionReason::ClaimedByIndependentRequirement);
    }
    let trusted = match &candidate.trust_class {
        Some(class) => vec_contains(&requirement.acceptable_trust_classes, class),
        None => false,
    };
    if !trusted {
        return Some(RejectionReason::WrongTrustClass);
    }
    match staleness_of(candidate.evidence, claim, requirement.freshness) {
        StalenessAssessment::Stale { .. } => Some(RejectionReason::Stale),
        StalenessAssessment::Indeterminate { .. } => Some(RejectionReason::IndeterminateFreshness),
        StalenessAssessment::Fresh { .. } => None,
        StalenessAssessment::NotTimeSensitive => None,
    }
}

proof fn lemma_any_undated_step(
    req: EvidenceRequirementModel,
    claimed_at: Seq<char>,
    excluded: Seq<Uuid>,
    candidates: Seq<CandidateModel>,
    n: int,
)
    requires
        0 <= n < candidates.len(),
    ensures
        any_undated(req, claimed_at, excluded, candidates.take(n + 1)) == (any_undated(
            req,
            claimed_at,
            excluded,
            candidates.take(n),
        ) || undated(req, claimed_at, excluded, candidates[n])),
{
    let before = candidates.take(n);
    let after = candidates.take(n + 1);
    assert(after[n] == candidates[n]);
    assert forall|i: int| 0 <= i < n implies #[trigger] before[i] == after[i] by {}
    if any_undated(req, claimed_at, excluded, before) {
        let i = choose|i: int|
            0 <= i < before.len() && undated(req, claimed_at, excluded, #[trigger] before[i]);
        assert(after[i] == before[i]);
    }
}

/// Evaluates one requirement on the evidence offered, without the excluded
/// items: its state, the items it claims, and the items it rejects.
pub fn evaluate_requirement(
    requirement: &EvidenceRequirement,
    claim: &Claim,
    evidence: &Vec<CandidateEvidence<'_>>,
    excluded: &Vec<Uuid>,
) -> (r: (SatisfactionState, Vec<Uuid>, Vec<RejectedEvidence>))
    ensures
        r.0 == evaluated(
            requirement.deep_view(),
            claim.claimed_at@,
            excluded.deep_view(),
            evidence.deep_view(),
        ),
        r.1.deep_view() == claimed(
            requirement.deep_view(),
            claim.claimed_at@,
            excluded.deep_view(),
            evidence.deep_view(),
        ),
        r.2.deep_view() == rejected(
            requirement.deep_view(),
            claim.claimed_at@,
            excluded.deep_view(),
            evidence.deep_view(),
        ),
{
    let ghost rv = requirement.deep_view();
    let ghost cv = claim.claimed_at@;
    let ghost xv = excluded.deep_view();
    let ghost all = evidence.deep_view();
    let needed = requirement.min_coverage.min_items;
    let mut ids: Vec<Uuid> = Vec::new();
    let mut surplus = false;
    let mut rejections: Vec<RejectedEvidence> = Vec::new();
    let mut saw_stale = false;
    let mut saw_undated = false;
    let mut i: usize = 0;
    assert(ids.deep_view() =~= Seq::<Uuid>::empty());
    assert(rejections.deep_view() =~= Seq::<RejectedEvidence>::empty());
    assert(all.take(0) =~= Seq::<CandidateModel>::empty());
    while i < evidence.len()
        invariant
            i <= evidence.len(),
            rv == requirement.deep_view(),
            cv == claim.claimed_at@,
            xv == excluded.deep_view(),
            all == evidence.deep_view(),
            needed == rv.min_coverage.min_items,
            ids.deep_view() == claimed(rv, cv, xv, all.take(i as int)),
            surplus == (qualifying(rv, cv, xv, all.take(i as int)).len() > needed),
            rejections.deep_view() == rejected(rv, cv, xv, all.take(i as int)),
            saw_stale == any_stale(rejections.deep_view()),
            saw_undated == any_undated(rv, cv, xv, all.take(i as int)),
        decreases evidence.len() - i,
    {
        let candidate = &evidence[i];
        proof {
            assert(all.take(i as int + 1).drop_last() =~= all.take(i as int));
            assert(all.take(i as int + 1).last() == candidate.deep_view());
        }
        let ghost q = qualifying(rv, cv, xv, all.take(i as int));
        let ghost next = qualifying(rv, cv, xv, all.take(i as int + 1));
        proof {
            lemma_any_undated_step(rv, cv, xv, all, i as int);
        }
        if candidate.evidence.kind == requirement.evidence_kind {
            match judge(requirement, claim, excluded, candidate) {
                Some(reason) => {
                    let entry = RejectedEvidence { evidence_id: candidate.evidence.id, reason };
                    let ghost before = rejections;
                    rejections.push(entry);
                    let aged = reason == RejectionReason::Stale || reason
                        == RejectionReason::IndeterminateFreshness;
                    proof {
                        lemma_deep_push(before, rejections, entry);
                        let rs = rejections.deep_view();
                        let old_rs = before.deep_view();
                        assert(rs[rs.len() - 1] == entry);
                        assert forall|j: int| 0 <= j < old_rs.len() implies #[trigger] rs[j]
                            == old_rs[j] by {}
                        if any_stale(old_rs) {
                            let j = choose|j: int|
                                0 <= j < old_rs.len() && ((#[trigger] old_rs[j]).reason
                                    == RejectionReason::Stale || old_rs[j].reason
                                    == RejectionReason::IndeterminateFreshness);
                            assert(rs[j] == old_rs[j]);
                        }
                        assert(any_stale(rs) == (any_stale(old_rs) || aged));
                    }
                    saw_stale = saw_stale || aged;
                    if reason == RejectionReason::IndeterminateFreshness && (parse_rfc3339(
                        candidate.evidence.observed_at.as_str(),
                    ).is_none() || parse_rfc3339(claim.claimed_at.as_str()).is_none()) {
                        saw_undated = true;
                    }
                },
                None => {
                    assert(ids.deep_view().len() == ids.len());
                    assert(next == q.push(candidate.evidence.id));
                    if ids.len() < needed as usize {
                        let id = candidate.evidence.id;
                        let ghost before = ids;
                        ids.push(id);
                        proof {
                            lemma_deep_push(before, ids, id);
                        }
                    } else {
                        surplus = true;
                        assert(next.take(needed as int) =~= q.take(needed as int));
                        assert(q.take(q.len() as int) =~= q);
                    }
                },
            }
        }
        i = i + 1;
    }
    assert(all.take(all.len() as int) =~= all);
    assert(ids.deep_view().len() == ids.len());
    assert(rejections.deep_view().len() == rejections.len());
    let state = if surplus || ids.len() >= needed as usize {
        SatisfactionState::Satisfied
    } else if saw_undated {
        SatisfactionState::Unknown
    } else if saw_stale {
        SatisfactionState::Stale
    } else if !rejections.is_empty() || !ids.is_empty() {
        SatisfactionState::Unsatisfied
    } else {
        SatisfactionState::Unavailable
    };
    (state, ids, rejections)
}

/// What a claim is assessed on: when it was made, which conditions hold for
/// it, and the evidence offered.
#[verifier::ext_equal]
pub struct Case {
    pub claimed_at: Seq<char>,
    pub conditions: Seq<Seq<char>>,
    pub candidates: Seq<CandidateModel>,
}

/// Whether a requirement of some level applies.
pub open spec fn applies(level: RequirementLevelModel, conditions: Seq<Seq<char>>) -> bool {
    match level {
        RequirementLevelModel::Conditional { condition } => conditions.contains(condition),
        _ => true,
    }
}

/// What each applicable requirement would claim if it were alone, by `id`.
pub open spec fn lone_claims(requirements: Seq<EvidenceRequirementModel>, case: Case) -> Map<
    Seq<char>,
    Seq<Uuid>,
>
    decreases requirements.len(),
{
    if requirements.len() == 0 {
        Map::empty()
    } else {
        let before = lone_claims(requirements.drop_last(), case);
        let req = requirements.last();
        if applies(req.level, case.conditions) {
            before.insert(req.id, claimed(req, case.claimed_at, Seq::empty(), case.candidates))
        } else {
            before
        }
    }
}

/// What the named requirements would claim.
pub open spec fn claims_of(ids: Seq<Seq<char>>, claims: Map<Seq<char>, Seq<Uuid>>) -> Seq<Uuid>
    decreases ids.len(),
{
    if ids.len() == 0 {
        Seq::empty()
    } else {
        claims_of(ids.drop_last(), claims) + (if claims.dom().contains(ids.last()) {
            claims[ids.last()]
        } else {
            Seq::empty()
        })
    }
}

/// The evidence a requirement may not use.
pub open spec fn excluded_for(
    req: EvidenceRequirementModel,
    claims: Map<Seq<char>, Seq<Uuid>>,
) -> Seq<Uuid> {
    match req.independence {
        IndependenceRuleModel::Unconstrained => Seq::empty(),
        IndependenceRuleModel::MustBeIndependentOf(ids) => claims_of(ids, claims),
    }
}

/// How a requirement fares, given the evidence it may not use.
pub open spec fn requirement_assessment(
    req: EvidenceRequirementModel,
    case: Case,
    excluded: Seq<Uuid>,
) -> RequirementAssessmentModel {
    if !applies(req.level, case.conditions) {
        RequirementAssessmentModel {
            requirement_id: req.id,
            level: req.level,
            state: SatisfactionState::NotApplicable.deep_view(),
            matched_evidence: Seq::empty(),
            rejected_evidence: Seq::empty(),
        }
    } else {
        let state = evaluated(req, case.claimed_at, excluded, case.candidates);
        RequirementAssessmentModel {
            requirement_id: req.id,
            level: req.level,
            state: state.deep_view(),
            matched_evidence: if state is Satisfied {
                claimed(req, case.claimed_at, excluded, case.candidates)
            } else {
                Seq::empty()
            },
            rejected_evidence: rejected(req, case.claimed_at, excluded, case.candidates),
        }
    }
}

/// Whether a requirement must be independent of the one called `id`.
pub open spec fn independent_of(req: EvidenceRequirementModel, id: Seq<char>) -> bool {
    req.independence matches IndependenceRuleModel::MustBeIndependentOf(ids) && ids.contains(id)
}

/// Whether two requirements must not share evidence.
pub open spec fn kept_apart(a: EvidenceRequirementModel, b: EvidenceRequirementModel) -> bool {
    independent_of(a, b.id) || independent_of(b, a.id)
}

/// What the requirements assessed so far have matched and `req` must not
/// share with them.
pub open spec fn taken(
    requirements: Seq<EvidenceRequirementModel>,
    assessed: Seq<RequirementAssessmentModel>,
    req: EvidenceRequirementModel,
) -> Seq<Uuid>
    decreases assessed.len(),
{
    if assessed.len() == 0 {
        Seq::empty()
    } else {
        taken(requirements, assessed.drop_last(), req) + (if kept_apart(
            req,
            requirements[assessed.len() - 1],
        ) {
            assessed.last().matched_evidence
        } else {
            Seq::empty()
        })
    }
}

/// What the named requirements would claim alone, but for those among the
/// first `n`.
pub open spec fn pending_claims(
    ids: Seq<Seq<char>>,
    claims: Map<Seq<char>, Seq<Uuid>>,
    requirements: Seq<EvidenceRequirementModel>,
    n: int,
) -> Seq<Uuid>
    decreases ids.len(),
{
    if ids.len() == 0 {
        Seq::empty()
    } else {
        pending_claims(ids.drop_last(), claims, requirements, n) + (if claims.dom().contains(
            ids.last(),
        ) && !named_before(requirements, n, ids.last()) {
            claims[ids.last()]
        } else {
            Seq::empty()
        })
    }
}

/// Whether one of the first `n` requirements is called `id`.
pub open spec fn named_before(
    requirements: Seq<EvidenceRequirementModel>,
    n: int,
    id: Seq<char>,
) -> bool {
    exists|k: int| 0 <= k < n && (#[trigger] requirements[k]).id == id
}

pub open spec fn share_evidence(a: Seq<Uuid>, b: Seq<Uuid>) -> bool {
    exists|k: int| 0 <= k < a.len() && b.contains(#[trigger] a[k])
}

/// How requirement `k` fares, given how those before it do. It leaves alone
/// what those it must be independent of would claim by themselves. Where it
/// would still share evidence with one before it that it must be kept apart
/// from, it leaves alone what that one has matched.
pub open spec fn settled(
    requirements: Seq<EvidenceRequirementModel>,
    case: Case,
    k: int,
    before: Seq<RequirementAssessmentModel>,
) -> RequirementAssessmentModel {
    let req = requirements[k];
    let claims = lone_claims(requirements, case);
    let first = requirement_assessment(req, case, excluded_for(req, claims));
    let avoided = taken(requirements, before, req);
    if share_evidence(first.matched_evidence, avoided) {
        requirement_assessment(
            req,
            case,
            avoided + pending_claims(independence_ids(req), claims, requirements, k),
        )
    } else {
        first
    }
}

/// The requirements that `req` must be independent of, by name.
pub open spec fn independence_ids(req: EvidenceRequirementModel) -> Seq<Seq<char>> {
    match req.independence {
        IndependenceRuleModel::Unconstrained => Seq::empty(),
        IndependenceRuleModel::MustBeIndependentOf(ids) => ids,
    }
}

/// How the first `n` requirements fare.
pub open spec fn first_assessments(
    requirements: Seq<EvidenceRequirementModel>,
    case: Case,
    n: int,
) -> Seq<RequirementAssessmentModel>
    decreases n,
{
    if n <= 0 {
        Seq::empty()
    } else {
        let before = first_assessments(requirements, case, n - 1);
        before.push(settled(requirements, case, n - 1, before))
    }
}

/// How every requirement fares.
pub open spec fn requirement_assessments(
    requirements: Seq<EvidenceRequirementModel>,
    case: Case,
) -> Seq<RequirementAssessmentModel> {
    first_assessments(requirements, case, requirements.len() as int)
}

/// How sharp a problem a state is.
pub open spec fn sharpness(state: Tag) -> int {
    if state == SatisfactionState::Contradicted.deep_view() {
        4
    } else if state == SatisfactionState::Stale.deep_view() {
        3
    } else if state == SatisfactionState::Unsatisfied.deep_view() {
        2
    } else if state == SatisfactionState::Unavailable.deep_view() {
        1
    } else {
        0
    }
}

/// Whether a requirement stands in the way of a pass.
pub open spec fn blocks(a: RequirementAssessmentModel) -> bool {
    !(a.level is Recommended) && a.state != SatisfactionState::Satisfied.deep_view() && a.state
        != SatisfactionState::NotApplicable.deep_view()
}

/// The sharpest problem among the requirements that stand in the way; of
/// equally sharp ones, the last.
pub open spec fn sharpest(assessments: Seq<RequirementAssessmentModel>) -> Option<Tag>
    decreases assessments.len(),
{
    if assessments.len() == 0 {
        None
    } else {
        let before = sharpest(assessments.drop_last());
        let a = assessments.last();
        if !blocks(a) || (before is Some && sharpness(before.unwrap()) > sharpness(a.state)) {
            before
        } else {
            Some(a.state)
        }
    }
}

/// The overall state: satisfied unless something stands in the way.
pub open spec fn overall_state(assessments: Seq<RequirementAssessmentModel>) -> Tag {
    match sharpest(assessments) {
        Some(state) => state,
        None => SatisfactionState::Satisfied.deep_view(),
    }
}

/// How a claim fares.
pub open spec fn assessment(
    registry: Map<ClaimClassIdModel, EpistemicContractModel>,
    claim_class: ClaimClassIdModel,
    case: Case,
) -> Result<ClaimAssessmentModel, ContractErrorModel> {
    if !registry.dom().contains(claim_class) {
        Ok(
            ClaimAssessmentModel {
                claim_class,
                per_requirement: Seq::empty(),
                overall: SatisfactionState::Unknown.deep_view(),
            },
        )
    } else {
        match effective(registry, claim_class) {
            Err(e) => Err(e),
            Ok(m) => {
                let per_requirement = requirement_assessments(in_key_order(m), case);
                Ok(
                    ClaimAssessmentModel {
                        claim_class,
                        per_requirement,
                        overall: overall_state(per_requirement),
                    },
                )
            },
        }
    }
}

impl SatisfactionState {
    fn sharpness_rank(&self) -> (r: u8)
        ensures
            r == sharpness(self.deep_view()),
    {
        match self {
            SatisfactionState::Contradicted => 4,
            SatisfactionState::Stale => 3,
            SatisfactionState::Unsatisfied => 2,
            SatisfactionState::Unavailable => 1,
            _ => 0,
        }
    }
}

impl RequirementLevel {
    fn applies_under(&self, conditions_met: &Vec<String>) -> (r: bool)
        ensures
            r == applies(self.deep_view(), conditions_met.deep_view()),
    {
        match self {
            RequirementLevel::Conditional { condition } => vec_contains(conditions_met, condition),
            RequirementLevel::Required => true,
            RequirementLevel::Recommended => true,
        }
    }
}

fn claim_alone(
    requirements: &Vec<EvidenceRequirement>,
    claim: &Claim,
    evidence: &Vec<CandidateEvidence<'_>>,
    conditions_met: &Vec<String>,
) -> (r: SortedMap<String, Vec<Uuid>>)
    ensures
        r.deep_view() == lone_claims(
            requirements.deep_view(),
            Case {
                claimed_at: claim.claimed_at@,
                conditions: conditions_met.deep_view(),
                candidates: evidence.deep_view(),
            },
        ),
{
    let ghost case = Case {
        claimed_at: claim.claimed_at@,
        conditions: conditions_met.deep_view(),
        candidates: evidence.deep_view(),
    };
    let ghost all = requirements.deep_view();
    let nothing: Vec<Uuid> = Vec::new();
    let mut claims: SortedMap<String, Vec<Uuid>> = SortedMap::new();
    let mut i: usize = 0;
    assert(nothing.deep_view() =~= Seq::<Uuid>::empty());
    assert(all.take(0) =~= Seq::<EvidenceRequirementModel>::empty());
    while i < requirements.len()
        invariant
            i <= requirements.len(),
            all == requirements.deep_view(),
            case == (Case {
                claimed_at: claim.claimed_at@,
                conditions: conditions_met.deep_view(),
                candidates: evidence.deep_view(),
            }),
            nothing.deep_view() == Seq::<Uuid>::empty(),
            claims.deep_view() == lone_claims(all.take(i as int), case),
        decreases requirements.len() - i,
    {
        let req = &requirements[i];
        proof {
            assert(all.take(i as int + 1).drop_last() =~= all.take(i as int));
            assert(all.take(i as int + 1).last() == req.deep_view());
        }
        if req.level.applies_under(conditions_met) {
            let (_, ids, _) = evaluate_requirement(req, claim, evidence, &nothing);
            claims = claims.with(req.id.clone(), ids);
        }
        i = i + 1;
    }
    assert(all.take(all.len() as int) =~= all);
    claims
}

fn exclusions(req: &EvidenceRequirement, claims: &SortedMap<String, Vec<Uuid>>) -> (r: Vec<Uuid>)
    ensures
        r.deep_view() == excluded_for(req.deep_view(), claims.deep_view()),
{
    let mut out: Vec<Uuid> = Vec::new();
    assert(out.deep_view() =~= Seq::<Uuid>::empty());
    match &req.independence {
        IndependenceRule::Unconstrained => out,
        IndependenceRule::MustBeIndependentOf(ids) => {
            let ghost all = ids.deep_view();
            let ghost cv = claims.deep_view();
            let mut i: usize = 0;
            assert(all.take(0) =~= Seq::<Seq<char>>::empty());
            while i < ids.len()
                invariant
                    i <= ids.len(),
                    all == ids.deep_view(),
                    cv == claims.deep_view(),
                    out.deep_view() == claims_of(all.take(i as int), cv),
                decreases ids.len() - i,
            {
                proof {
                    assert(all.take(i as int + 1).drop_last() =~= all.take(i as int));
                    assert(all.take(i as int + 1).last() == ids@[i as int].deep_view());
                }
                let ghost before = out.deep_view();
                match claims.get(&ids[i]) {
                    Some(claimed_ids) => {
                        append_copy(&mut out, claimed_ids);
                    },
                    None => {
                        assert(before + Seq::<Uuid>::empty() =~= before);
                    },
                }
                i = i + 1;
            }
            assert(all.take(all.len() as int) =~= all);
            out
        },
    }
}

fn assess_requirement(
    req: &EvidenceRequirement,
    claim: &Claim,
    evidence: &Vec<CandidateEvidence<'_>>,
    conditions_met: &Vec<String>,
    excluded: &Vec<Uuid>,
) -> (r: RequirementAssessment)
    ensures
        r.deep_view() == requirement_assessment(
            req.deep_view(),
            Case {
                claimed_at: claim.claimed_at@,
                conditions: conditions_met.deep_view(),
                candidates: evidence.deep_view(),
            },
            excluded.deep_view(),
        ),
{
    if !req.level.applies_under(conditions_met) {
        let r = RequirementAssessment {
            requirement_id: req.id.clone(),
            level: req.level.deep_clone(),
            state: SatisfactionState::NotApplicable,
            matched_evidence: Vec::new(),
            rejected_evidence: Vec::new(),
        };
        assert(r.matched_evidence.deep_view() =~= Seq::<Uuid>::empty());
        assert(r.rejected_evidence.deep_view() =~= Seq::<RejectedEvidence>::empty());
        return r;
    }
    let (state, ids, rejected_evidence) = evaluate_requirement(req, claim, evidence, excluded);
    let matched_evidence = match state {
        SatisfactionState::Satisfied => ids,
        _ => Vec::new(),
    };
    assert(!(state is Satisfied) ==> matched_evidence.deep_view() =~= Seq::<Uuid>::empty());
    RequirementAssessment {
        requirement_id: req.id.clone(),
        level: req.level.deep_clone(),
        state,
        matched_evidence,
        rejected_evidence,
    }
}

impl EvidenceRequirement {
    fn is_independent_of(&self, id: &String) -> (r: bool)
        ensures
            r == independent_of(self.deep_view(), id.deep_view()),
    {
        match &self.independence {
            IndependenceRule::Unconstrained => false,
            IndependenceRule::MustBeIndependentOf(ids) => vec_contains(ids, id),
        }
    }
}

fn append_copy(out: &mut Vec<Uuid>, more: &Vec<Uuid>)
    ensures
        final(out).deep_view() == old(out).deep_view() + more.deep_view(),
{
    let ghost before = out.deep_view();
    let mut copy = more.deep_clone();
    let ghost added = copy.deep_view();
    out.append(&mut copy);
    assert(out.deep_view() =~= before + added);
}

fn taken_evidence(
    requirements: &Vec<EvidenceRequirement>,
    assessed: &Vec<RequirementAssessment>,
    req: &EvidenceRequirement,
) -> (r: Vec<Uuid>)
    requires
        assessed.len() <= requirements.len(),
    ensures
        r.deep_view() == taken(requirements.deep_view(), assessed.deep_view(), req.deep_view()),
{
    let ghost all = assessed.deep_view();
    let ghost rv = requirements.deep_view();
    let mut out: Vec<Uuid> = Vec::new();
    let mut i: usize = 0;
    assert(all.take(0) =~= Seq::<RequirementAssessmentModel>::empty());
    assert(out.deep_view() =~= Seq::<Uuid>::empty());
    while i < assessed.len()
        invariant
            i <= assessed.len() <= requirements.len(),
            all == assessed.deep_view(),
            rv == requirements.deep_view(),
            out.deep_view() == taken(rv, all.take(i as int), req.deep_view()),
        decreases assessed.len() - i,
    {
        proof {
            assert(all.take(i as int + 1).drop_last() =~= all.take(i as int));
            assert(all.take(i as int + 1).last() == assessed@[i as int].deep_view());
            assert(rv[i as int] == requirements@[i as int].deep_view());
            assert(out.deep_view() + Seq::<Uuid>::empty() =~= out.deep_view());
        }
        if req.is_independent_of(&requirements[i].id) || requirements[i].is_independent_of(&req.id) {
            append_copy(&mut out, &assessed[i].matched_evidence);
        }
        i = i + 1;
    }
    assert(all.take(all.len() as int) =~= all);
    out
}

fn is_named_before(requirements: &Vec<EvidenceRequirement>, n: usize, id: &String) -> (r: bool)
    requires
        n <= requirements.len(),
    ensures
        r == named_before(requirements.deep_view(), n as int, id.deep_view()),
{
    let ghost rv = requirements.deep_view();
    let mut i: usize = 0;
    while i < n
        invariant
            i <= n <= requirements.len(),
            rv == requirements.deep_view(),
            forall|k: int| 0 <= k < i ==> (#[trigger] rv[k]).id != id.deep_view(),
        decreases n - i,
    {
        assert(rv[i as int] == requirements@[i as int].deep_view());
        if requirements[i].id.deep_eq(id) {
            return true;
        }
        i = i + 1;
    }
    false
}

fn pending_exclusions(
    requirements: &Vec<EvidenceRequirement>,
    n: usize,
    claims: &SortedMap<String, Vec<Uuid>>,
    avoided: Vec<Uuid>,
) -> (r: Vec<Uuid>)
    requires
        n < requirements.len(),
    ensures
        r.deep_view() == avoided.deep_view() + pending_claims(
            independence_ids(requirements.deep_view()[n as int]),
            claims.deep_view(),
            requirements.deep_view(),
            n as int,
        ),
{
    let ghost rv = requirements.deep_view();
    let ghost cv = claims.deep_view();
    let ghost start = avoided.deep_view();
    let mut out = avoided;
    assert(rv[n as int] == requirements@[n as int].deep_view());
    assert(start + Seq::<Uuid>::empty() =~= start);
    match &requirements[n].independence {
        IndependenceRule::Unconstrained => out,
        IndependenceRule::MustBeIndependentOf(ids) => {
            let ghost all = ids.deep_view();
            let mut i: usize = 0;
            assert(all.take(0) =~= Seq::<Seq<char>>::empty());
            while i < ids.len()
                invariant
                    i <= ids.len(),
                    n < requirements.len(),
                    all == ids.deep_view(),
                    rv == requirements.deep_view(),
                    cv == claims.deep_view(),
                    out.deep_view() == start + pending_claims(all.take(i as int), cv, rv, n as int),
                decreases ids.len() - i,
            {
                let ghost so_far = pending_claims(all.take(i as int), cv, rv, n as int);
                proof {
                    assert(all.take(i as int + 1).drop_last() =~= all.take(i as int));
                    assert(all.take(i as int + 1).last() == ids@[i as int].deep_view());
                    assert(so_far + Seq::<Uuid>::empty() =~= so_far);
                }
                if !is_named_before(requirements, n, &ids[i]) {
                    if let Some(claimed_ids) = claims.get(&ids[i]) {
                        append_copy(&mut out, claimed_ids);
                        assert(start + so_far + claimed_ids.deep_view() =~= start + (so_far
                            + claimed_ids.deep_view()));
                    }
                }
                i = i + 1;
            }
            assert(all.take(all.len() as int) =~= all);
            out
        },
    }
}

fn shares_evidence(a: &Vec<Uuid>, b: &Vec<Uuid>) -> (r: bool)
    ensures
        r == share_evidence(a.deep_view(), b.deep_view()),
{
    let ghost av = a.deep_view();
    let mut i: usize = 0;
    while i < a.len()
        invariant
            i <= a.len(),
            av == a.deep_view(),
            forall|k: int| 0 <= k < i ==> !b.deep_view().contains(#[trigger] av[k]),
        decreases a.len() - i,
    {
        assert(av[i as int] == a@[i as int].deep_view());
        if vec_contains(b, &a[i]) {
            return true;
        }
        i = i + 1;
    }
    false
}

fn settle_requirement(
    requirements: &Vec<EvidenceRequirement>,
    assessed: &Vec<RequirementAssessment>,
    claim: &Claim,
    evidence: &Vec<CandidateEvidence<'_>>,
    conditions_met: &Vec<String>,
    claims: &SortedMap<String, Vec<Uuid>>,
) -> (r: RequirementAssessment)
    requires
        assessed.len() < requirements.len(),
        claims.deep_view() == lone_claims(
            requirements.deep_view(),
            Case {
                claimed_at: claim.claimed_at@,
                conditions: conditions_met.deep_view(),
                candidates: evidence.deep_view(),
            },
        ),
    ensures
        r.deep_view() == settled(
            requirements.deep_view(),
            Case {
                claimed_at: claim.claimed_at@,
                conditions: conditions_met.deep_view(),
                candidates: evidence.deep_view(),
            },
            assessed@.len() as int,
            assessed.deep_view(),
        ),
{
    let k = assessed.len();
    let req = &requirements[k];
    assert(requirements.deep_view()[k as int] == req.deep_view());
    let excluded = exclusions(req, claims);
    let first = assess_requirement(req, claim, evidence, conditions_met, &excluded);
    let avoided = taken_evidence(requirements, assessed, req);
    if shares_evidence(&first.matched_evidence, &avoided) {
        let excluded = pending_exclusions(requirements, k, claims, avoided);
        assess_requirement(req, claim, evidence, conditions_met, &excluded)
    } else {
        first
    }
}

fn summarize(assessments: &Vec<RequirementAssessment>) -> (r: SatisfactionState)
    ensures
        r.deep_view() == overall_state(assessments.deep_view()),
{
    let ghost all = assessments.deep_view();
    let mut worst: Option<SatisfactionState> = None;
    let mut i: usize = 0;
    assert(all.take(0) =~= Seq::<RequirementAssessmentModel>::empty());
    while i < assessments.len()
        invariant
            i <= assessments.len(),
            all == assessments.deep_view(),
            worst.deep_view() == sharpest(all.take(i as int)),
        decreases assessments.len() - i,
    {
        let a = &assessments[i];
        proof {
            assert(all.take(i as int + 1).drop_last() =~= all.take(i as int));
            assert(all.take(i as int + 1).last() == a.deep_view());
        }
        let binding = match a.level {
            RequirementLevel::Recommended => false,
            _ => true,
        };
        let open = match a.state {
            SatisfactionState::Satisfied => false,
            SatisfactionState::NotApplicable => false,
            _ => true,
        };
        if binding && open {
            let sharper = match &worst {
                Some(state) => state.sharpness_rank() <= a.state.sharpness_rank(),
                None => true,
            };
            if sharper {
                worst = Some(a.state.deep_clone());
            }
        }
        i = i + 1;
    }
    assert(all.take(all.len() as int) =~= all);
    match worst {
        Some(state) => state,
        None => SatisfactionState::Satisfied,
    }
}

/// Assesses a claim against its contract. `conditions_met` names the
/// conditions that hold for the claim. Each requirement is first evaluated
/// alone, to learn what it would claim, and then without the evidence claimed
/// by those it must be independent of. No evidence counts for two that must
/// be independent: where that would still happen, the later one gives way.
///
/// A claim whose kind is not registered is `Unknown`, never `Satisfied`.
pub fn assess_claim(
    registry: &ContractRegistry,
    claim_class: &ClaimClassId,
    claim: &Claim,
    evidence: &Vec<CandidateEvidence<'_>>,
    conditions_met: &Vec<String>,
) -> (r: Result<ClaimAssessment, ContractError>)
    ensures
        match (r, assessment(
            registry.deep_view(),
            claim_class.deep_view(),
            Case {
                claimed_at: claim.claimed_at@,
                conditions: conditions_met.deep_view(),
                candidates: evidence.deep_view(),
            },
        )) {
            (Ok(a), Ok(m)) => a.deep_view() == m,
            (Err(e), Err(m)) => e.deep_view() == m,
            _ => false,
        },
{
    if let ContractLookup::Unknown = registry.lookup(claim_class) {
        let per_requirement: Vec<RequirementAssessment> = Vec::new();
        assert(per_requirement.deep_view() =~= Seq::<RequirementAssessmentModel>::empty());
        return Ok(
            ClaimAssessment {
                claim_class: claim_class.deep_clone(),
                per_requirement,
                overall: SatisfactionState::Unknown,
            },
        );
    }
    let requirements = match registry.effective_requirements(claim_class) {
        Ok(requirements) => requirements,
        Err(e) => {
            return Err(e);
        },
    };
    let ghost case = Case {
        claimed_at: claim.claimed_at@,
        conditions: conditions_met.deep_view(),
        candidates: evidence.deep_view(),
    };
    let ghost rv = requirements.deep_view();
    let claims = claim_alone(&requirements, claim, evidence, conditions_met);
    let mut per_requirement: Vec<RequirementAssessment> = Vec::new();
    assert(per_requirement.deep_view() =~= Seq::<RequirementAssessmentModel>::empty());
    while per_requirement.len() < requirements.len()
        invariant
            per_requirement.len() <= requirements.len(),
            rv == requirements.deep_view(),
            case == (Case {
                claimed_at: claim.claimed_at@,
                conditions: conditions_met.deep_view(),
                candidates: evidence.deep_view(),
            }),
            claims.deep_view() == lone_claims(rv, case),
            per_requirement.deep_view() == first_assessments(
                rv,
                case,
                per_requirement@.len() as int,
            ),
        decreases requirements.len() - per_requirement.len(),
    {
        let a = settle_requirement(
            &requirements,
            &per_requirement,
            claim,
            evidence,
            conditions_met,
            &claims,
        );
        let ghost before = per_requirement;
        per_requirement.push(a);
        proof {
            lemma_deep_push(before, per_requirement, a);
        }
    }
    let overall = summarize(&per_requirement);
    Ok(ClaimAssessment { claim_class: claim_class.deep_clone(), per_requirement, overall })
}

/// Whether a requirement binds at least as strictly as another.
pub open spec fn upholds(
    req: EvidenceRequirementModel,
    inherited: EvidenceRequirementModel,
) -> bool {
    &&& strictness(req.level) >= strictness(inherited.level)
    &&& req.min_coverage.min_items >= inherited.min_coverage.min_items
    &&& keeps_trust_classes(
        req.acceptable_trust_classes,
        inherited.acceptable_trust_classes,
    )
}

/// Whether every requirement of `old_reqs` is still there in `new_reqs`, at
/// least as strict.
pub open spec fn upholds_all(
    new_reqs: Map<Seq<char>, EvidenceRequirementModel>,
    old_reqs: Map<Seq<char>, EvidenceRequirementModel>,
) -> bool {
    forall|id: Seq<char>| #[trigger]
        old_reqs.dom().contains(id) ==> new_reqs.dom().contains(id) && upholds(
            new_reqs[id],
            old_reqs[id],
        )
}

proof fn lemma_composed_from_upholds(
    claim_class: ClaimClassIdModel,
    parents: Map<Seq<char>, EvidenceRequirementModel>,
    own: Seq<EvidenceRequirementModel>,
    i: int,
    merged: Map<Seq<char>, EvidenceRequirementModel>,
)
    requires
        0 <= i <= own.len(),
        upholds_all(merged, parents),
    ensures
        composed_from(claim_class, parents, own, i, merged) matches Ok(m) ==> upholds_all(
            m,
            parents,
        ),
    decreases own.len() - i,
{
    if i < own.len() {
        let next = merged.insert(own[i].id, own[i]);
        if !(parents.dom().contains(own[i].id) && weakening(
            claim_class,
            parents[own[i].id],
            own[i],
        ) is Some) {
            assert(upholds_all(next, parents));
            lemma_composed_from_upholds(claim_class, parents, own, i + 1, next);
        }
    }
}

/// Inheriting never drops a requirement and never weakens one: what a
/// contract inherits is still there, at least as strict, in what it resolves
/// to.
pub proof fn law_inheritance_never_weakens(
    claim_class: ClaimClassIdModel,
    parents: Map<Seq<char>, EvidenceRequirementModel>,
    own: Seq<EvidenceRequirementModel>,
)
    ensures
        composed(claim_class, parents, own) matches Ok(m) ==> upholds_all(m, parents),
{
    assert(upholds_all(parents, parents)) by {
        assert forall|id: Seq<char>| #[trigger] parents.dom().contains(id) implies upholds(
            parents[id],
            parents[id],
        ) by {
            let t = parents[id].acceptable_trust_classes;
            assert forall|i: int| 0 <= i < t.len() implies t.contains(#[trigger] t[i]) by {}
        }
    }
    lemma_composed_from_upholds(claim_class, parents, own, 0, parents);
}

proof fn lemma_upholds_transitive(
    c: EvidenceRequirementModel,
    b: EvidenceRequirementModel,
    a: EvidenceRequirementModel,
)
    requires
        upholds(c, b),
        upholds(b, a),
    ensures
        upholds(c, a),
{
    let at = a.acceptable_trust_classes;
    let bt = b.acceptable_trust_classes;
    assert forall|i: int| 0 <= i < at.len() implies c.acceptable_trust_classes.contains(
        #[trigger] at[i],
    ) by {
        assert(bt.contains(at[i]));
        let j = choose|j: int| 0 <= j < bt.len() && bt[j] == at[i];
        assert(c.acceptable_trust_classes.contains(bt[j]));
    }
}

/// No descendant weakens an obligation of any ancestor: what a chain has
/// merged at some contract is upheld by what the whole chain resolves to.
pub proof fn law_ancestors_are_upheld(
    registry: Map<ClaimClassIdModel, EpistemicContractModel>,
    chain: Seq<ClaimClassIdModel>,
    n: int,
    merged: Map<Seq<char>, EvidenceRequirementModel>,
)
    requires
        0 <= n <= chain.len(),
    ensures
        inherited_from(registry, chain, n, merged) matches Ok(m) ==> upholds_all(m, merged),
    decreases n,
{
    if n <= 0 {
        law_inheritance_never_weakens(
            ClaimClassIdModel { name: Seq::empty(), version: 0 },
            merged,
            Seq::empty(),
        );
    } else {
        let own = registry[chain[n - 1]].requirements;
        law_inheritance_never_weakens(chain[n - 1], merged, own);
        if let Ok(next) = composed(chain[n - 1], merged, own) {
            law_ancestors_are_upheld(registry, chain, n - 1, next);
            if let Ok(m) = inherited_from(registry, chain, n, merged) {
                assert forall|id: Seq<char>| #[trigger] merged.dom().contains(id) implies m.dom()
                    .contains(id) && upholds(m[id], merged[id]) by {
                    assert(next.dom().contains(id));
                    lemma_upholds_transitive(m[id], next[id], merged[id]);
                }
            }
        }
    }
}

/// A requirement the child does not mention is inherited unchanged.
pub proof fn law_unmentioned_requirements_are_inherited(
    claim_class: ClaimClassIdModel,
    parents: Map<Seq<char>, EvidenceRequirementModel>,
    own: Seq<EvidenceRequirementModel>,
    id: Seq<char>,
)
    requires
        parents.dom().contains(id),
        forall|i: int| 0 <= i < own.len() ==> (#[trigger] own[i]).id != id,
    ensures
        composed(claim_class, parents, own) matches Ok(m) ==> m.dom().contains(id) && m[id]
            == parents[id],
{
    lemma_unmentioned(claim_class, parents, own, 0, parents, id);
}

proof fn lemma_unmentioned(
    claim_class: ClaimClassIdModel,
    parents: Map<Seq<char>, EvidenceRequirementModel>,
    own: Seq<EvidenceRequirementModel>,
    i: int,
    merged: Map<Seq<char>, EvidenceRequirementModel>,
    id: Seq<char>,
)
    requires
        0 <= i <= own.len(),
        merged.dom().contains(id),
        merged[id] == parents[id],
        forall|k: int| 0 <= k < own.len() ==> (#[trigger] own[k]).id != id,
    ensures
        composed_from(claim_class, parents, own, i, merged) matches Ok(m) ==> m.dom().contains(id)
            && m[id] == parents[id],
    decreases own.len() - i,
{
    if i < own.len() {
        lemma_unmentioned(
            claim_class,
            parents,
            own,
            i + 1,
            merged.insert(own[i].id, own[i]),
            id,
        );
    }
}

/// Whether a chain of different registered contracts starts at `target` and
/// goes from parent to parent.
pub open spec fn is_walk(
    registry: Map<ClaimClassIdModel, EpistemicContractModel>,
    target: ClaimClassIdModel,
    chain: Seq<ClaimClassIdModel>,
) -> bool {
    &&& chain.len() > 0
    &&& chain[0] == target
    &&& forall|i: int| 0 <= i < chain.len() ==> registry.dom().contains(#[trigger] chain[i])
    &&& forall|i: int|
        0 <= i < chain.len() - 1 ==> registry[#[trigger] chain[i]].parent == Some(chain[i + 1])
    &&& chain.no_duplicates()
}

/// Whether a walk comes back: its last contract inherits from one of it.
pub open spec fn comes_back(
    registry: Map<ClaimClassIdModel, EpistemicContractModel>,
    target: ClaimClassIdModel,
    chain: Seq<ClaimClassIdModel>,
) -> bool {
    is_walk(registry, target, chain) && (registry[chain.last()].parent matches Some(parent)
        && chain.contains(parent))
}

pub(crate) proof fn lemma_walk_fits(
    registry: Map<ClaimClassIdModel, EpistemicContractModel>,
    target: ClaimClassIdModel,
    chain: Seq<ClaimClassIdModel>,
)
    requires
        registry.dom().finite(),
        is_walk(registry, target, chain),
    ensures
        chain.len() <= registry.dom().len(),
{
    chain.unique_seq_to_set();
    assert forall|c: ClaimClassIdModel| chain.to_set().contains(c) implies registry.dom().contains(
        c,
    ) by {
        let i = choose|i: int| 0 <= i < chain.len() && chain[i] == c;
        assert(registry.dom().contains(chain[i]));
    }
    vstd::set_lib::lemma_len_subset(chain.to_set(), registry.dom());
}

/// A cycle is reported only for a walk that comes back.
proof fn lemma_cycle_comes_back(
    registry: Map<ClaimClassIdModel, EpistemicContractModel>,
    target: ClaimClassIdModel,
    seen: Seq<ClaimClassIdModel>,
    current: ClaimClassIdModel,
)
    requires
        registry.dom().finite(),
        seen.len() == 0 ==> current == target,
        seen.len() > 0 ==> is_walk(registry, target, seen) && registry[seen.last()].parent == Some(
            current,
        ),
        !seen.contains(current),
    ensures
        lineage_from(registry, target, seen, current) matches Err(e) && e is InheritanceCycle
            ==> exists|chain: Seq<ClaimClassIdModel>| #[trigger]
            comes_back(registry, target, chain),
    decreases registry.dom().len() - seen.len(),
{
    if registry.dom().contains(current) {
        let chain = seen.push(current);
        assert forall|i: int, j: int|
            0 <= i < chain.len() && 0 <= j < chain.len() && i != j implies chain[i] != chain[j] by {
            if i < seen.len() && j < seen.len() {
                assert(seen[i] != seen[j]);
            } else if i < seen.len() {
                assert(seen.contains(seen[i]));
            } else {
                assert(seen.contains(seen[j]));
            }
        }
        assert forall|i: int| 0 <= i < chain.len() implies registry.dom().contains(
            #[trigger] chain[i],
        ) by {
            if i < seen.len() {
                assert(registry.dom().contains(seen[i]));
            }
        }
        assert forall|i: int| 0 <= i < chain.len() - 1 implies registry[#[trigger] chain[i]].parent
            == Some(chain[i + 1]) by {
            if i < seen.len() - 1 {
                assert(registry[seen[i]].parent == Some(seen[i + 1]));
            } else {
                assert(chain[i] == seen.last());
            }
        }
        assert(is_walk(registry, target, chain));
        lemma_walk_fits(registry, target, chain);
        assert(chain.last() == current);
        match registry[current].parent {
            Some(parent) => {
                if chain.contains(parent) {
                    assert(comes_back(registry, target, chain));
                } else {
                    lemma_cycle_comes_back(registry, target, chain, parent);
                }
            },
            None => {},
        }
    }
}

/// A walk that comes back is reported as a cycle.
proof fn lemma_coming_back_is_a_cycle(
    registry: Map<ClaimClassIdModel, EpistemicContractModel>,
    target: ClaimClassIdModel,
    chain: Seq<ClaimClassIdModel>,
    k: int,
)
    requires
        comes_back(registry, target, chain),
        0 <= k < chain.len(),
    ensures
        lineage_from(registry, target, chain.take(k), chain[k]) matches Err(e)
            && e is InheritanceCycle,
    decreases chain.len() - k,
{
    let next = chain.take(k).push(chain[k]);
    assert(next =~= chain.take(k + 1));
    assert(registry.dom().contains(chain[k]));
    if k == chain.len() - 1 {
        assert(next =~= chain);
    } else {
        assert(registry[chain[k]].parent == Some(chain[k + 1]));
        if next.contains(chain[k + 1]) {
            let i = choose|i: int| 0 <= i < next.len() && next[i] == chain[k + 1];
            assert(chain[i] == chain[k + 1]);
        }
        lemma_coming_back_is_a_cycle(registry, target, chain, k + 1);
    }
}

proof fn lemma_composing_reports_no_cycle(
    claim_class: ClaimClassIdModel,
    parents: Map<Seq<char>, EvidenceRequirementModel>,
    own: Seq<EvidenceRequirementModel>,
    i: int,
    merged: Map<Seq<char>, EvidenceRequirementModel>,
)
    ensures
        composed_from(claim_class, parents, own, i, merged) matches Err(e)
            ==> e is WeakenedRequirement,
    decreases own.len() - i,
{
    if 0 <= i < own.len() {
        lemma_composing_reports_no_cycle(
            claim_class,
            parents,
            own,
            i + 1,
            merged.insert(own[i].id, own[i]),
        );
    }
}

proof fn lemma_inheriting_reports_no_cycle(
    registry: Map<ClaimClassIdModel, EpistemicContractModel>,
    chain: Seq<ClaimClassIdModel>,
    n: int,
    merged: Map<Seq<char>, EvidenceRequirementModel>,
)
    ensures
        inherited_from(registry, chain, n, merged) matches Err(e) ==> e is WeakenedRequirement,
    decreases n,
{
    if n > 0 {
        let own = registry[chain[n - 1]].requirements;
        lemma_composing_reports_no_cycle(chain[n - 1], merged, own, 0, merged);
        if let Ok(m) = composed(chain[n - 1], merged, own) {
            lemma_inheriting_reports_no_cycle(registry, chain, n - 1, m);
        }
    }
}

/// A registry holds finitely many contracts.
pub proof fn law_registries_are_finite(registry: ContractRegistry)
    ensures
        registry.deep_view().dom().finite(),
{
    lemma_sorted_map_keys(registry.contracts);
}

/// A cycle is reported of a kind of claim exactly if going from parent to
/// parent comes up with a contract again.
pub proof fn law_cycles_are_reported_exactly(registry: ContractRegistry, target: ClaimClassIdModel)
    ensures
        (effective(registry.deep_view(), target) matches Err(e) && e is InheritanceCycle)
            <==> exists|chain: Seq<ClaimClassIdModel>| #[trigger]
            comes_back(registry.deep_view(), target, chain),
{
    let r = registry.deep_view();
    law_registries_are_finite(registry);
    lemma_cycle_comes_back(r, target, Seq::empty(), target);
    if exists|chain: Seq<ClaimClassIdModel>| #[trigger] comes_back(r, target, chain) {
        let chain = choose|chain: Seq<ClaimClassIdModel>| #[trigger] comes_back(r, target, chain);
        lemma_coming_back_is_a_cycle(r, target, chain, 0);
        assert(chain.take(0) =~= Seq::empty());
    }
    if let Ok(chain) = lineage(r, target) {
        lemma_inheriting_reports_no_cycle(r, chain, chain.len() as int, Map::empty());
    }
}

/// Whether a chain starts at `target`, goes from parent to parent, ends at a
/// contract without one, and meets no contract twice.
pub open spec fn is_lineage(
    registry: Map<ClaimClassIdModel, EpistemicContractModel>,
    target: ClaimClassIdModel,
    chain: Seq<ClaimClassIdModel>,
) -> bool {
    &&& chain.len() > 0
    &&& chain[0] == target
    &&& forall|i: int| 0 <= i < chain.len() ==> registry.dom().contains(#[trigger] chain[i])
    &&& forall|i: int|
        0 <= i < chain.len() - 1 ==> registry[#[trigger] chain[i]].parent == Some(chain[i + 1])
    &&& registry[chain.last()].parent is None
    &&& chain.no_duplicates()
}

/// The contracts a kind of claim inherits from are its parent, its parent's
/// parent and so on, up to a contract without one; a kind of claim that
/// inherits from itself has no such chain.
pub proof fn law_lineage_follows_parents(
    registry: Map<ClaimClassIdModel, EpistemicContractModel>,
    target: ClaimClassIdModel,
)
    ensures
        lineage(registry, target) matches Ok(chain) ==> is_lineage(registry, target, chain),
{
    lemma_lineage_from(registry, target, Seq::empty(), target);
}

proof fn lemma_lineage_from(
    registry: Map<ClaimClassIdModel, EpistemicContractModel>,
    target: ClaimClassIdModel,
    seen: Seq<ClaimClassIdModel>,
    current: ClaimClassIdModel,
)
    requires
        seen.len() == 0 ==> current == target,
        seen.len() > 0 ==> seen[0] == target && registry[seen.last()].parent == Some(current),
        forall|i: int| 0 <= i < seen.len() ==> registry.dom().contains(#[trigger] seen[i]),
        forall|i: int|
            0 <= i < seen.len() - 1 ==> registry[#[trigger] seen[i]].parent == Some(seen[i + 1]),
        seen.no_duplicates(),
        !seen.contains(current),
    ensures
        lineage_from(registry, target, seen, current) matches Ok(chain) ==> is_lineage(
            registry,
            target,
            chain,
        ),
    decreases registry.dom().len() - seen.len(),
{
    if registry.dom().contains(current) {
        let chain = seen.push(current);
        assert forall|i: int, j: int|
            0 <= i < chain.len() && 0 <= j < chain.len() && i != j implies chain[i] != chain[j] by {
            if i < seen.len() && j < seen.len() {
                assert(seen[i] != seen[j]);
            } else if i < seen.len() {
                assert(seen.contains(seen[i]));
            } else {
                assert(seen.contains(seen[j]));
            }
        }
        assert forall|i: int| 0 <= i < chain.len() - 1 implies registry[#[trigger] chain[i]].parent
            == Some(chain[i + 1]) by {
            if i < seen.len() - 1 {
                assert(registry[seen[i]].parent == Some(seen[i + 1]));
            } else {
                assert(chain[i] == seen.last());
            }
        }
        if chain.len() <= registry.dom().len() {
            if let Some(parent) = registry[current].parent {
                if !chain.contains(parent) {
                    lemma_lineage_from(registry, target, chain, parent);
                }
            }
        }
    }
}

/// A claim whose kind is not registered is `Unknown`: it never passes, and no
/// requirement is reported for it.
pub proof fn law_unknown_claim_class_never_passes(
    registry: Map<ClaimClassIdModel, EpistemicContractModel>,
    claim_class: ClaimClassIdModel,
    case: Case,
)
    requires
        !registry.dom().contains(claim_class),
    ensures
        assessment(registry, claim_class, case) is Ok,
        assessment(registry, claim_class, case)->Ok_0.overall
            == SatisfactionState::Unknown.deep_view(),
        assessment(registry, claim_class, case)->Ok_0.overall
            != SatisfactionState::Satisfied.deep_view(),
        assessment(registry, claim_class, case)->Ok_0.per_requirement.len() == 0,
{
}

pub(crate) proof fn lemma_sharpest(assessments: Seq<RequirementAssessmentModel>)
    ensures
        sharpest(assessments) is None <==> forall|i: int|
            0 <= i < assessments.len() ==> !blocks(#[trigger] assessments[i]),
        sharpest(assessments) matches Some(state) ==> exists|i: int|
            0 <= i < assessments.len() && blocks(#[trigger] assessments[i]) && assessments[i].state
                == state,
        sharpest(assessments) matches Some(state) ==> forall|i: int|
            0 <= i < assessments.len() && blocks(#[trigger] assessments[i]) ==> sharpness(
                assessments[i].state,
            ) <= sharpness(state),
    decreases assessments.len(),
{
    if assessments.len() > 0 {
        let front = assessments.drop_last();
        lemma_sharpest(front);
        let n = assessments.len() - 1;
        assert(assessments[n] == assessments.last());
        assert forall|i: int| 0 <= i < n implies #[trigger] assessments[i] == front[i] by {}
        if sharpest(front) is Some {
            let k = choose|i: int|
                0 <= i < front.len() && blocks(#[trigger] front[i]) && front[i].state
                    == sharpest(front).unwrap();
            assert(assessments[k] == front[k]);
        }
        if sharpest(assessments) is None {
            assert forall|i: int| 0 <= i < assessments.len() implies !blocks(
                #[trigger] assessments[i],
            ) by {
                if i < n {
                    assert(!blocks(front[i]));
                }
            }
        }
        if forall|i: int| 0 <= i < assessments.len() ==> !blocks(#[trigger] assessments[i]) {
            assert(!blocks(assessments[n]));
            assert forall|i: int| 0 <= i < front.len() implies !blocks(#[trigger] front[i]) by {
                assert(!blocks(assessments[i]));
            }
        }
        if let Some(state) = sharpest(assessments) {
            assert forall|i: int|
                0 <= i < assessments.len() && blocks(#[trigger] assessments[i]) implies sharpness(
                assessments[i].state,
            ) <= sharpness(state) by {
                if i < n {
                    assert(blocks(front[i]));
                }
            }
        }
    }
}

pub(crate) proof fn lemma_first_assessments(
    requirements: Seq<EvidenceRequirementModel>,
    case: Case,
    n: int,
    i: int,
)
    requires
        0 <= i < n <= requirements.len(),
    ensures
        first_assessments(requirements, case, n).len() == n,
        first_assessments(requirements, case, n)[i] == settled(
            requirements,
            case,
            i,
            first_assessments(requirements, case, i),
        ),
        first_assessments(requirements, case, i).len() == i,
        first_assessments(requirements, case, i) == first_assessments(requirements, case, n).take(
            i,
        ),
    decreases n,
{
    let all = first_assessments(requirements, case, n);
    let before = first_assessments(requirements, case, n - 1);
    if n - 1 > 0 {
        lemma_first_assessments(requirements, case, n - 1, 0);
    }
    assert(before.len() == n - 1);
    if i < n - 1 {
        lemma_first_assessments(requirements, case, n - 1, i);
        assert(all.take(i) =~= before.take(i));
    } else {
        assert(all.take(i) =~= before);
    }
}

/// A claim passes exactly when every requirement that binds it is satisfied:
/// those that are required, and those whose condition holds. Recommended ones
/// never stand in the way.
pub proof fn law_pass_means_every_binding_requirement_is_met(
    requirements: Seq<EvidenceRequirementModel>,
    case: Case,
)
    ensures
        requirement_assessments(requirements, case).len() == requirements.len(),
        overall_state(requirement_assessments(requirements, case))
            == SatisfactionState::Satisfied.deep_view() <==> forall|i: int|
            0 <= i < requirements.len() && !((#[trigger] requirements[i]).level is Recommended)
                && applies(requirements[i].level, case.conditions) ==> requirement_assessments(
                requirements,
                case,
            )[i].state == SatisfactionState::Satisfied.deep_view(),
{
    let all = requirement_assessments(requirements, case);
    let n = requirements.len() as int;
    lemma_sharpest(all);
    if n > 0 {
        lemma_first_assessments(requirements, case, n, 0);
    }
    assert forall|i: int| 0 <= i < n implies (#[trigger] all[i]).level == requirements[i].level && (
    all[i].state == SatisfactionState::NotApplicable.deep_view() || applies(
        requirements[i].level,
        case.conditions,
    )) && (applies(requirements[i].level, case.conditions) ==> all[i].state
        != SatisfactionState::NotApplicable.deep_view()) by {
        lemma_first_assessments(requirements, case, n, i);
    }
    if overall_state(all) == SatisfactionState::Satisfied.deep_view() {
        assert(sharpest(all) is None);
        assert forall|i: int|
            0 <= i < requirements.len() && !((#[trigger] requirements[i]).level is Recommended)
                && applies(requirements[i].level, case.conditions) implies all[i].state
            == SatisfactionState::Satisfied.deep_view() by {
            assert(!blocks(all[i]));
        }
    }
    if forall|i: int|
        0 <= i < requirements.len() && !((#[trigger] requirements[i]).level is Recommended)
            && applies(requirements[i].level, case.conditions) ==> all[i].state
            == SatisfactionState::Satisfied.deep_view() {
        assert forall|i: int| 0 <= i < all.len() implies !blocks(#[trigger] all[i]) by {
            assert(all[i].level == requirements[i].level);
        }
    }
}

proof fn lemma_qualifying(
    req: EvidenceRequirementModel,
    claimed_at: Seq<char>,
    excluded: Seq<Uuid>,
    candidates: Seq<CandidateModel>,
    id: Uuid,
)
    requires
        qualifying(req, claimed_at, excluded, candidates).contains(id),
    ensures
        !excluded.contains(id),
        exists|i: int|
            0 <= i < candidates.len() && (#[trigger] candidates[i]).id == id && candidates[i].kind
                == req.evidence_kind && rejection(req, claimed_at, excluded, candidates[i]) is None,
    decreases candidates.len(),
{
    let q = qualifying(req, claimed_at, excluded, candidates);
    let front = candidates.drop_last();
    let c = candidates.last();
    let qf = qualifying(req, claimed_at, excluded, front);
    let k = choose|k: int| 0 <= k < q.len() && q[k] == id;
    if k < qf.len() {
        assert(qf[k] == id);
        lemma_qualifying(req, claimed_at, excluded, front, id);
        let i = choose|i: int|
            0 <= i < front.len() && (#[trigger] front[i]).id == id && front[i].kind
                == req.evidence_kind && rejection(req, claimed_at, excluded, front[i]) is None;
        assert(candidates[i] == front[i]);
    } else {
        assert(candidates[candidates.len() - 1] == c);
    }
}

/// What a requirement reports as matched was offered and is not excluded, is
/// of the right kind and of an accepted source, and is neither stale nor of
/// unclear age.
pub proof fn law_matched_evidence_meets_the_bar(
    req: EvidenceRequirementModel,
    case: Case,
    excluded: Seq<Uuid>,
    id: Uuid,
)
    requires
        requirement_assessment(req, case, excluded).matched_evidence.contains(id),
    ensures
        !excluded.contains(id),
        exists|i: int|
            #![trigger case.candidates[i]]
            0 <= i < case.candidates.len() && case.candidates[i].id == id
                && case.candidates[i].kind == req.evidence_kind && trust_accepted(
                req,
                case.candidates[i].trust_class,
            ) && !(staleness(case.candidates[i].observed_at, case.claimed_at, req.freshness)
                is Stale) && !(staleness(
                case.candidates[i].observed_at,
                case.claimed_at,
                req.freshness,
            ) is Indeterminate),
{
    lemma_claimed_qualifies(req, case.claimed_at, excluded, case.candidates, id);
    lemma_qualifying(req, case.claimed_at, excluded, case.candidates, id);
    let i = choose|i: int|
        0 <= i < case.candidates.len() && (#[trigger] case.candidates[i]).id == id
            && case.candidates[i].kind == req.evidence_kind && rejection(
            req,
            case.claimed_at,
            excluded,
            case.candidates[i],
        ) is None;
    assert(trust_accepted(req, case.candidates[i].trust_class));
}

proof fn lemma_claimed_qualifies(
    req: EvidenceRequirementModel,
    claimed_at: Seq<char>,
    excluded: Seq<Uuid>,
    candidates: Seq<CandidateModel>,
    id: Uuid,
)
    requires
        claimed(req, claimed_at, excluded, candidates).contains(id),
    ensures
        qualifying(req, claimed_at, excluded, candidates).contains(id),
{
    let c = claimed(req, claimed_at, excluded, candidates);
    let q = qualifying(req, claimed_at, excluded, candidates);
    let k = choose|k: int| 0 <= k < c.len() && c[k] == id;
    assert(q[k] == id);
}

/// A satisfied requirement reports as many matches as it needs, and no more;
/// any other reports none.
pub proof fn law_matches_are_counted_exactly(
    req: EvidenceRequirementModel,
    case: Case,
    excluded: Seq<Uuid>,
)
    ensures
        ({
            let a = requirement_assessment(req, case, excluded);
            if a.state == SatisfactionState::Satisfied.deep_view() {
                a.matched_evidence.len() == req.min_coverage.min_items
            } else {
                a.matched_evidence.len() == 0
            }
        }),
{
}

proof fn lemma_taken(
    requirements: Seq<EvidenceRequirementModel>,
    assessed: Seq<RequirementAssessmentModel>,
    req: EvidenceRequirementModel,
    i: int,
    id: Uuid,
)
    requires
        0 <= i < assessed.len() <= requirements.len(),
        kept_apart(req, requirements[i]),
        assessed[i].matched_evidence.contains(id),
    ensures
        taken(requirements, assessed, req).contains(id),
    decreases assessed.len(),
{
    let head = taken(requirements, assessed.drop_last(), req);
    let whole = taken(requirements, assessed, req);
    if i < assessed.len() - 1 {
        lemma_taken(requirements, assessed.drop_last(), req, i, id);
        let k = choose|k: int| 0 <= k < head.len() && head[k] == id;
        assert(whole[k] == id);
    } else {
        let tail = assessed[i].matched_evidence;
        let k = choose|k: int| 0 <= k < tail.len() && tail[k] == id;
        assert(whole[head.len() + k] == id);
    }
}

/// No evidence counts twice toward requirements that must be independent: two
/// requirements of which one must be independent of the other share no match.
pub proof fn law_no_evidence_counts_twice(
    requirements: Seq<EvidenceRequirementModel>,
    case: Case,
    i: int,
    j: int,
    id: Uuid,
)
    requires
        0 <= i < requirements.len(),
        0 <= j < requirements.len(),
        i != j,
        independent_of(requirements[i], requirements[j].id),
    ensures
        !(requirement_assessments(requirements, case)[i].matched_evidence.contains(id)
            && requirement_assessments(requirements, case)[j].matched_evidence.contains(id)),
{
    if i < j {
        lemma_kept_apart(requirements, case, i, j, id);
    } else {
        lemma_kept_apart(requirements, case, j, i, id);
    }
}

proof fn lemma_kept_apart(
    requirements: Seq<EvidenceRequirementModel>,
    case: Case,
    i: int,
    j: int,
    id: Uuid,
)
    requires
        0 <= i < j < requirements.len(),
        kept_apart(requirements[j], requirements[i]),
    ensures
        !(requirement_assessments(requirements, case)[i].matched_evidence.contains(id)
            && requirement_assessments(requirements, case)[j].matched_evidence.contains(id)),
{
    let n = requirements.len() as int;
    let all = requirement_assessments(requirements, case);
    lemma_first_assessments(requirements, case, n, j);
    let before = first_assessments(requirements, case, j);
    assert(before[i] == all[i]);
    if all[i].matched_evidence.contains(id) && all[j].matched_evidence.contains(id) {
        let req = requirements[j];
        let claims = lone_claims(requirements, case);
        let first = requirement_assessment(req, case, excluded_for(req, claims));
        let avoided = taken(requirements, before, req);
        lemma_taken(requirements, before, req, i, id);
        if share_evidence(first.matched_evidence, avoided) {
            let excluded = avoided + pending_claims(
                independence_ids(req),
                claims,
                requirements,
                j,
            );
            let k = choose|k: int| 0 <= k < avoided.len() && avoided[k] == id;
            assert(excluded[k] == id);
            law_matched_evidence_meets_the_bar(req, case, excluded, id);
        } else {
            let m = first.matched_evidence;
            let k = choose|k: int| 0 <= k < m.len() && m[k] == id;
            assert(avoided.contains(m[k]));
        }
    }
}

/// Whether no two requirements have the same `id`.
pub open spec fn ids_differ(requirements: Seq<EvidenceRequirementModel>) -> bool {
    forall|i: int, j: int|
        #![trigger requirements[i], requirements[j]]
        0 <= i < j < requirements.len() ==> requirements[i].id != requirements[j].id
}

/// Without requirements to inherit, composing lays out the given ones.
proof fn lemma_composed_alone(
    claim_class: ClaimClassIdModel,
    own: Seq<EvidenceRequirementModel>,
    i: int,
    merged: Map<Seq<char>, EvidenceRequirementModel>,
)
    requires
        0 <= i <= own.len(),
        ids_differ(own),
        forall|k: int|
            0 <= k < i ==> merged.dom().contains((#[trigger] own[k]).id) && merged[own[k].id]
                == own[k],
        forall|id: Seq<char>| #[trigger]
            merged.dom().contains(id) ==> exists|k: int| 0 <= k < i && (#[trigger] own[k]).id == id,
    ensures
        composed_from(claim_class, Map::empty(), own, i, merged) matches Ok(m) && (forall|k: int|
            0 <= k < own.len() ==> m.dom().contains((#[trigger] own[k]).id) && m[own[k].id]
                == own[k]) && (forall|id: Seq<char>| #[trigger]
            m.dom().contains(id) ==> exists|k: int|
                0 <= k < own.len() && (#[trigger] own[k]).id == id),
    decreases own.len() - i,
{
    if i < own.len() {
        let next = merged.insert(own[i].id, own[i]);
        assert forall|k: int| 0 <= k < i + 1 implies next.dom().contains((#[trigger] own[k]).id)
            && next[own[k].id] == own[k] by {
            if k < i {
                assert(own[k].id != own[i].id);
            }
        }
        assert forall|id: Seq<char>| #[trigger] next.dom().contains(id) implies exists|k: int|
            0 <= k < i + 1 && (#[trigger] own[k]).id == id by {
            if id == own[i].id {
                assert(own[i].id == id);
            } else {
                assert(merged.dom().contains(id));
                let k = choose|k: int| 0 <= k < i && (#[trigger] own[k]).id == id;
                assert(own[k].id == id);
            }
        }
        lemma_composed_alone(claim_class, own, i + 1, next);
    }
}

/// Requirements laid out by `id` and read in key order are the same
/// requirements, in another order.
proof fn lemma_in_key_order_permutes(
    own: Seq<EvidenceRequirementModel>,
    m: Map<Seq<char>, EvidenceRequirementModel>,
)
    requires
        ids_differ(own),
        forall|k: int|
            0 <= k < own.len() ==> m.dom().contains((#[trigger] own[k]).id) && m[own[k].id]
                == own[k],
        forall|id: Seq<char>| #[trigger]
            m.dom().contains(id) ==> exists|k: int|
                0 <= k < own.len() && (#[trigger] own[k]).id == id,
    ensures
        in_key_order(m).to_multiset() == own.to_multiset(),
{
    broadcast use vstd::seq_lib::group_to_multiset_ensures;

    let ids = Seq::new(own.len(), |k: int| own[k].id);
    assert forall|id: Seq<char>| ids.to_set().contains(id) == m.dom().contains(id) by {
        if m.dom().contains(id) {
            let k = choose|k: int| 0 <= k < own.len() && (#[trigger] own[k]).id == id;
            assert(ids[k] == id);
        }
        if ids.contains(id) {
            let k = choose|k: int| 0 <= k < ids.len() && ids[k] == id;
            assert(own[k].id == id);
        }
    }
    assert(ids.to_set() =~= m.dom());
    law_sorted_members_are_canonical::<String>(ids);
    let keys = listing::<String>(m.dom());
    let out = in_key_order(m);
    assert forall|i: int, j: int| 0 <= i < out.len() && 0 <= j < out.len() && i != j implies out[i]
        != out[j] by {
        let (a, b) = if i < j {
            (i, j)
        } else {
            (j, i)
        };
        assert(key_before(String::sort_key(keys[a]), String::sort_key(keys[b])));
        lemma_key_irreflexive(String::sort_key(keys[a]));
        lemma_key_value(own, m, keys, a);
        lemma_key_value(own, m, keys, b);
    }
    assert(out.no_duplicates());
    assert(own.no_duplicates());
    out.lemma_multiset_has_no_duplicates();
    own.lemma_multiset_has_no_duplicates();
    assert forall|x: EvidenceRequirementModel|
        out.to_multiset().count(x) == own.to_multiset().count(x) by {
        if out.contains(x) {
            let i = choose|i: int| 0 <= i < out.len() && out[i] == x;
            lemma_key_value(own, m, keys, i);
            let k = choose|k: int| 0 <= k < own.len() && (#[trigger] own[k]).id == keys[i];
            assert(own[k] == x);
        }
        if own.contains(x) {
            let k = choose|k: int| 0 <= k < own.len() && own[k] == x;
            assert(m.dom().contains(own[k].id));
            assert(keys.to_set().contains(own[k].id));
            let i = choose|i: int| 0 <= i < keys.len() && keys[i] == own[k].id;
            assert(out[i] == x);
        }
        assert(out.to_multiset().contains(x) == out.contains(x));
        assert(own.to_multiset().contains(x) == own.contains(x));
    }
    assert(out.to_multiset() =~= own.to_multiset());
}

proof fn lemma_key_value(
    own: Seq<EvidenceRequirementModel>,
    m: Map<Seq<char>, EvidenceRequirementModel>,
    keys: Seq<Seq<char>>,
    i: int,
)
    requires
        forall|k: int|
            0 <= k < own.len() ==> m.dom().contains((#[trigger] own[k]).id) && m[own[k].id]
                == own[k],
        forall|id: Seq<char>| #[trigger]
            m.dom().contains(id) ==> exists|k: int|
                0 <= k < own.len() && (#[trigger] own[k]).id == id,
        keys.to_set() == m.dom(),
        0 <= i < keys.len(),
    ensures
        m[keys[i]].id == keys[i],
        exists|k: int| 0 <= k < own.len() && (#[trigger] own[k]).id == keys[i],
{
    assert(keys.to_set().contains(keys[i]));
    assert(m.dom().contains(keys[i]));
    let k = choose|k: int| 0 <= k < own.len() && (#[trigger] own[k]).id == keys[i];
    assert(m[own[k].id] == own[k]);
}

/// A registered contract that inherits from none, and whose requirements have
/// different `id`s, resolves to exactly its own requirements.
pub proof fn law_root_contracts_resolve_to_themselves(
    registry: Map<ClaimClassIdModel, EpistemicContractModel>,
    target: ClaimClassIdModel,
)
    requires
        registry.dom().finite(),
        registry.dom().contains(target),
        registry[target].parent is None,
        ids_differ(registry[target].requirements),
    ensures
        effective(registry, target) matches Ok(m) && in_key_order(m).to_multiset()
            == registry[target].requirements.to_multiset(),
{
    let own = registry[target].requirements;
    let chain = Seq::<ClaimClassIdModel>::empty().push(target);
    assert(registry.dom().len() > 0) by {
        if registry.dom().len() == 0 {
            assert(registry.dom() =~= Set::empty());
        }
    }
    assert(lineage(registry, target) == Ok::<Seq<ClaimClassIdModel>, ContractErrorModel>(chain));
    lemma_composed_alone(target, own, 0, Map::empty());
    let m = composed(target, Map::empty(), own)->Ok_0;
    assert(inherited_from(registry, chain, 0, m) == Ok::<
        Map<Seq<char>, EvidenceRequirementModel>,
        ContractErrorModel,
    >(m));
    assert(chain[0] == target);
    assert(effective(registry, target) == Ok::<
        Map<Seq<char>, EvidenceRequirementModel>,
        ContractErrorModel,
    >(m));
    lemma_in_key_order_permutes(own, m);
}

} // verus!

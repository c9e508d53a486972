//! Counterfactual experiments: a versioned description of a deliberate
//! intervention, what it may touch, and what came of it. Nothing here runs an
//! experiment.
use vstd::prelude::*;

use crate::capabilities::SignalClass;
use crate::extension::ExtensionEnvelope;
use crate::graph::EvidenceRelation;
use crate::ident::Uuid;
use crate::json::{Json, JsonModel};
use crate::model::{known_tag, Deep, Tag};
use crate::order::{
    ascending, law_sorted_members_are_canonical, listing, number_key, squeezed, stably_sorted,
    OrderKey, Ordered, Sortable, SortedMap, SortedSet,
};
use crate::text::{decimal, number_list, to_decimal, to_number_list};

verus! {

/// The specification versions this library reads.
pub const SUPPORTED_EXPERIMENT_SCHEMA_VERSIONS: [u32; 1] = [1];

/// The version a new specification carries.
pub const EXPERIMENT_SCHEMA_VERSION: u32 = 1;

/// A side effect an intervention may need permission for. There is no class for
/// reading: permitting nothing is what makes an experiment read-only.
#[derive(Debug, Clone, Copy, PartialEq, Eq, PartialOrd, Ord, Structural)]
pub enum SideEffectClass {
    /// A mutation confined to a disposable worktree.
    EphemeralWorktreeMutation,
    /// Spawning a subprocess within the experiment's own environment.
    ProcessSpawn,
    /// Any network call; in no default list.
    NetworkCall,
    /// A write outside the disposable worktree.
    FilesystemWriteOutsideWorktree,
}

impl DeepView for SideEffectClass {
    type V = SideEffectClass;

    open spec fn deep_view(&self) -> SideEffectClass {
        *self
    }
}

impl Deep for SideEffectClass {
    fn deep_clone(&self) -> (r: Self) {
        *self
    }

    fn deep_eq(&self, other: &Self) -> (r: bool) {
        *self == *other
    }
}

impl SideEffectClass {
    /// Position in the order the variants are declared in.
    pub open spec fn rank(self) -> int {
        match self {
            SideEffectClass::EphemeralWorktreeMutation => 0,
            SideEffectClass::ProcessSpawn => 1,
            SideEffectClass::NetworkCall => 2,
            SideEffectClass::FilesystemWriteOutsideWorktree => 3,
        }
    }

    fn rank_of(&self) -> (r: u8)
        ensures
            r == self.rank(),
    {
        match self {
            SideEffectClass::EphemeralWorktreeMutation => 0,
            SideEffectClass::ProcessSpawn => 1,
            SideEffectClass::NetworkCall => 2,
            SideEffectClass::FilesystemWriteOutsideWorktree => 3,
        }
    }
}

impl Sortable for SideEffectClass {
    open spec fn sort_key(v: SideEffectClass) -> OrderKey {
        number_key(v.rank())
    }

    fn sorts_before(&self, other: &Self) -> (r: bool) {
        self.rank_of() < other.rank_of()
    }
}

impl Ordered for SideEffectClass {
    proof fn key_is_injective(a: SideEffectClass, b: SideEffectClass) {
    }
}

/// The side effects an experiment permits. What is not named is denied.
#[derive(Debug, Clone, PartialEq, Eq)]
pub struct SideEffectAllowList {
    permitted: SortedSet<SideEffectClass>,
}

impl DeepView for SideEffectAllowList {
    type V = Set<SideEffectClass>;

    closed spec fn deep_view(&self) -> Set<SideEffectClass> {
        self.permitted.deep_view()
    }
}

impl Default for SideEffectAllowList {
    fn default() -> (r: Self)
        ensures
            r.deep_view() == Set::<SideEffectClass>::empty(),
    {
        SideEffectAllowList { permitted: SortedSet::new() }
    }
}

impl SideEffectAllowList {
    /// The list that permits exactly the classes named, in whatever order and
    /// however often they are named.
    pub fn new(classes: Vec<SideEffectClass>) -> (r: Self)
        ensures
            r.deep_view() == classes.deep_view().to_set(),
    {
        SideEffectAllowList { permitted: SortedSet::from_vec(&classes) }
    }

    /// Whether `class` is permitted.
    pub fn permits(&self, class: SideEffectClass) -> (r: bool)
        ensures
            r == self.deep_view().contains(class),
    {
        self.permitted.contains(&class)
    }

    /// Whether nothing is permitted.
    pub fn is_read_only(&self) -> (r: bool)
        ensures
            r == (self.deep_view() == Set::<SideEffectClass>::empty()),
    {
        self.permitted.is_empty()
    }

    /// The permitted classes, in the order they are declared in.
    pub fn classes(&self) -> (r: &Vec<SideEffectClass>)
        ensures
            r.deep_view() == listing::<SideEffectClass>(self.deep_view()),
            r.deep_view().to_set() == self.deep_view(),
            ascending::<SideEffectClass>(r.deep_view()),
    {
        self.permitted.as_vec()
    }
}

/// The canonical listing of an allow-list is that of its input, sorted and
/// without repetitions; it depends on which classes were named and on nothing
/// else.
pub proof fn law_allow_list_is_canonical(a: Seq<SideEffectClass>, b: Seq<SideEffectClass>)
    requires
        a.to_set() == b.to_set(),
    ensures
        listing::<SideEffectClass>(a.to_set()) == squeezed(stably_sorted::<SideEffectClass>(a)),
        squeezed(stably_sorted::<SideEffectClass>(a)) == squeezed(
            stably_sorted::<SideEffectClass>(b),
        ),
{
    law_sorted_members_are_canonical::<SideEffectClass>(a);
    law_sorted_members_are_canonical::<SideEffectClass>(b);
}

/// What an intervention is expected to show in one signal class.
#[derive(Debug, Clone, PartialEq, Eq)]
pub struct ExpectedObservation {
    pub signal_class: SignalClass,
    pub description: String,
}

/// The claim an experiment tests and what it predicts.
#[derive(Debug, Clone, PartialEq, Eq)]
pub struct Hypothesis {
    pub claim_id: Uuid,
    pub expected_observations: Vec<ExpectedObservation>,
    pub narrative: Option<String>,
}

/// The state before the intervention, and the evidence for it.
#[derive(Debug, Clone, PartialEq, Eq)]
pub struct Baseline {
    pub description: String,
    pub evidence_ids: Vec<Uuid>,
}

/// The shape of an intervention.
#[derive(Debug, Clone, PartialEq, Eq)]
pub enum ExperimentKind {
    /// Put files back to their recorded state.
    RevertFileToBaseline,
    /// Replace what a tool returned.
    SubstituteToolResult,
    /// Run without a named sensor.
    DisableSensor,
    /// A shape named by an opaque tag.
    Custom(String),
}

impl DeepView for ExperimentKind {
    type V = Tag;

    open spec fn deep_view(&self) -> Tag {
        match self {
            ExperimentKind::RevertFileToBaseline => known_tag(0),
            ExperimentKind::SubstituteToolResult => known_tag(1),
            ExperimentKind::DisableSensor => known_tag(2),
            ExperimentKind::Custom(s) => Tag { index: 3, text: s@ },
        }
    }
}

impl ExperimentKind {
    fn index(&self) -> (r: u8)
        ensures
            r == self.deep_view().index,
    {
        match self {
            ExperimentKind::RevertFileToBaseline => 0,
            ExperimentKind::SubstituteToolResult => 1,
            ExperimentKind::DisableSensor => 2,
            ExperimentKind::Custom(_) => 3,
        }
    }

    /// The name a value is written under.
    pub open spec fn wire_text(v: Tag) -> Seq<char> {
        if v.index == 0 {
            "revert_file_to_baseline"@
        } else if v.index == 1 {
            "substitute_tool_result"@
        } else if v.index == 2 {
            "disable_sensor"@
        } else {
            v.text
        }
    }

    /// The name this value is written under.
    pub fn wire_tag(&self) -> (r: String)
        ensures
            r@ == Self::wire_text(self.deep_view()),
    {
        match self {
            ExperimentKind::RevertFileToBaseline => "revert_file_to_baseline".to_owned(),
            ExperimentKind::SubstituteToolResult => "substitute_tool_result".to_owned(),
            ExperimentKind::DisableSensor => "disable_sensor".to_owned(),
            ExperimentKind::Custom(s) => s.clone(),
        }
    }
}

impl Deep for ExperimentKind {
    fn deep_clone(&self) -> (r: Self) {
        match self {
            ExperimentKind::RevertFileToBaseline => ExperimentKind::RevertFileToBaseline,
            ExperimentKind::SubstituteToolResult => ExperimentKind::SubstituteToolResult,
            ExperimentKind::DisableSensor => ExperimentKind::DisableSensor,
            ExperimentKind::Custom(s) => ExperimentKind::Custom(s.clone()),
        }
    }

    fn deep_eq(&self, other: &Self) -> (r: bool) {
        match (self, other) {
            (ExperimentKind::Custom(a), ExperimentKind::Custom(b)) => *a == *b,
            _ => self.index() == other.index(),
        }
    }
}

/// The deliberate change an experiment makes. `params` is inert data.
#[derive(Debug, Clone, PartialEq, Eq)]
pub struct Intervention {
    pub kind: ExperimentKind,
    pub description: String,
    pub params: Json,
    pub provider_extension: Option<ExtensionEnvelope>,
}

/// What ends an experiment.
#[derive(Debug, Clone, Copy, PartialEq, Eq, Structural)]
pub enum StopCondition {
    ObservationCountReached { count: u32 },
    TimeoutElapsed { max_seconds: u64 },
    ExpectedObservationMet,
    SafetyPolicyViolated,
    UnexpectedSideEffectDetected,
}

/// Who wrote a specification, when and for what versions.
#[derive(Debug, Clone, PartialEq, Eq)]
pub struct ExperimentProvenance {
    pub created_at: String,
    pub created_by: String,
    pub environment: String,
    pub tool_version: String,
    pub runtime_versions: SortedMap<String, String>,
}

/// A versioned specification of one experiment. Members of the wire form that
/// are not named here are kept in `unknown`.
#[derive(Debug, Clone, PartialEq, Eq)]
pub struct ExperimentSpec {
    pub schema_version: u32,
    pub id: Uuid,
    /// The version of this experiment; a changed re-run is a new version.
    pub version: u32,
    pub session_id: String,
    pub hypothesis: Hypothesis,
    pub preconditions: Vec<String>,
    pub baseline: Baseline,
    pub intervention: Intervention,
    pub stop_conditions: Vec<StopCondition>,
    pub allowed_side_effects: SideEffectAllowList,
    pub provenance: ExperimentProvenance,
    pub extension: Option<ExtensionEnvelope>,
    pub unknown: SortedMap<String, Json>,
}

/// The wire form of a specification; its version has not been checked. What a
/// wire form does not mention is absent here.
#[derive(Debug, Clone, PartialEq, Eq)]
pub struct ExperimentSpecWire {
    pub schema_version: u32,
    pub id: Uuid,
    pub version: u32,
    pub session_id: String,
    pub hypothesis: Hypothesis,
    pub preconditions: Vec<String>,
    pub baseline: Baseline,
    pub intervention: Intervention,
    pub stop_conditions: Vec<StopCondition>,
    pub allowed_side_effects: Option<Vec<SideEffectClass>>,
    pub provenance: ExperimentProvenance,
    pub extension: Option<ExtensionEnvelope>,
    pub unknown: SortedMap<String, Json>,
}

/// Whether a specification version is one this library reads.
pub open spec fn experiment_schema_supported(version: u32) -> bool {
    SUPPORTED_EXPERIMENT_SCHEMA_VERSIONS@.contains(version)
}

/// What is said of a specification whose version is not supported.
pub open spec fn experiment_version_error(version: u32) -> Seq<char> {
    "incompatible ExperimentSpec schema_version "@ + decimal(version as int)
        + ": this binary supports "@ + number_list(SUPPORTED_EXPERIMENT_SCHEMA_VERSIONS@)
}

/// The classes a wire form permits: none, where it does not say.
pub open spec fn wire_permissions(wire: Option<Seq<SideEffectClass>>) -> Set<SideEffectClass> {
    match wire {
        Some(classes) => classes.to_set(),
        None => Set::empty(),
    }
}

impl ExperimentSpec {
    /// A new specification at the current version, without preconditions,
    /// extension or unknown members. No permission is added to those given,
    /// and no clock is read.
    pub fn new(
        id: Uuid,
        version: u32,
        session_id: String,
        hypothesis: Hypothesis,
        baseline: Baseline,
        intervention: Intervention,
        stop_conditions: Vec<StopCondition>,
        allowed_side_effects: SideEffectAllowList,
        provenance: ExperimentProvenance,
    ) -> (r: Self)
        ensures
            r.schema_version == EXPERIMENT_SCHEMA_VERSION,
            r.id == id,
            r.version == version,
            r.session_id == session_id,
            r.hypothesis == hypothesis,
            r.preconditions@.len() == 0,
            r.baseline == baseline,
            r.intervention == intervention,
            r.stop_conditions == stop_conditions,
            r.allowed_side_effects == allowed_side_effects,
            r.provenance == provenance,
            r.extension is None,
            r.unknown.deep_view() == Map::<Seq<char>, JsonModel>::empty(),
    {
        ExperimentSpec {
            schema_version: EXPERIMENT_SCHEMA_VERSION,
            id,
            version,
            session_id,
            hypothesis,
            preconditions: Vec::new(),
            baseline,
            intervention,
            stop_conditions,
            allowed_side_effects,
            provenance,
            extension: None,
            unknown: SortedMap::new(),
        }
    }

    /// Accepts a wire form of a supported version.
    pub fn try_from_wire(w: ExperimentSpecWire) -> (r: Result<Self, String>)
        ensures
            match r {
                Ok(s) => {
                    &&& experiment_schema_supported(w.schema_version)
                    &&& s.allowed_side_effects.deep_view() == wire_permissions(
                        w.allowed_side_effects.deep_view(),
                    )
                    &&& s == (ExperimentSpec {
                        schema_version: w.schema_version,
                        id: w.id,
                        version: w.version,
                        session_id: w.session_id,
                        hypothesis: w.hypothesis,
                        preconditions: w.preconditions,
                        baseline: w.baseline,
                        intervention: w.intervention,
                        stop_conditions: w.stop_conditions,
                        allowed_side_effects: s.allowed_side_effects,
                        provenance: w.provenance,
                        extension: w.extension,
                        unknown: w.unknown,
                    })
                },
                Err(message) => !experiment_schema_supported(w.schema_version) && message@
                    == experiment_version_error(w.schema_version),
            },
    {
        let supported = SUPPORTED_EXPERIMENT_SCHEMA_VERSIONS;
        assert(supported@[0] == 1);
        if w.schema_version != supported[0] {
            return Err(
                "incompatible ExperimentSpec schema_version ".to_owned().concat(
                    to_decimal(w.schema_version as u64).as_str(),
                ).concat(": this binary supports ").concat(
                    to_number_list(supported.as_slice()).as_str(),
                ),
            );
        }
        let allowed_side_effects = match w.allowed_side_effects {
            Some(classes) => SideEffectAllowList::new(classes),
            None => SideEffectAllowList::default(),
        };
        Ok(
            ExperimentSpec {
                schema_version: w.schema_version,
                id: w.id,
                version: w.version,
                session_id: w.session_id,
                hypothesis: w.hypothesis,
                preconditions: w.preconditions,
                baseline: w.baseline,
                intervention: w.intervention,
                stop_conditions: w.stop_conditions,
                allowed_side_effects,
                provenance: w.provenance,
                extension: w.extension,
                unknown: w.unknown,
            },
        )
    }
}

/// A run that compared the state before an intervention with the state after
/// it.
#[derive(Debug, Clone, PartialEq, Eq)]
pub struct CompletedExperiment {
    /// The claim that was tested.
    pub hypothesis_claim_id: Uuid,
    /// How the intervention's evidence relates to the hypothesis.
    pub hypothesis_relation: EvidenceRelation,
    pub baseline_evidence_ids: Vec<Uuid>,
    pub intervention_evidence_ids: Vec<Uuid>,
    pub summary: String,
}

/// The mathematical value of a [`CompletedExperiment`].
#[verifier::ext_equal]
pub struct CompletedExperimentModel {
    pub hypothesis_claim_id: Uuid,
    pub hypothesis_relation: EvidenceRelation,
    pub baseline_evidence_ids: Seq<Uuid>,
    pub intervention_evidence_ids: Seq<Uuid>,
    pub summary: Seq<char>,
}

impl DeepView for CompletedExperiment {
    type V = CompletedExperimentModel;

    open spec fn deep_view(&self) -> CompletedExperimentModel {
        CompletedExperimentModel {
            hypothesis_claim_id: self.hypothesis_claim_id.deep_view(),
            hypothesis_relation: self.hypothesis_relation.deep_view(),
            baseline_evidence_ids: self.baseline_evidence_ids.deep_view(),
            intervention_evidence_ids: self.intervention_evidence_ids.deep_view(),
            summary: self.summary.deep_view(),
        }
    }
}

impl Deep for CompletedExperiment {
    fn deep_clone(&self) -> (r: Self) {
        CompletedExperiment {
            hypothesis_claim_id: self.hypothesis_claim_id.deep_clone(),
            hypothesis_relation: self.hypothesis_relation.deep_clone(),
            baseline_evidence_ids: self.baseline_evidence_ids.deep_clone(),
            intervention_evidence_ids: self.intervention_evidence_ids.deep_clone(),
            summary: self.summary.deep_clone(),
        }
    }

    fn deep_eq(&self, other: &Self) -> (r: bool) {
        self.hypothesis_claim_id.deep_eq(&other.hypothesis_claim_id)
            && self.hypothesis_relation.deep_eq(&other.hypothesis_relation)
            && self.baseline_evidence_ids.deep_eq(&other.baseline_evidence_ids)
            && self.intervention_evidence_ids.deep_eq(&other.intervention_evidence_ids)
            && self.summary.deep_eq(&other.summary)
    }
}

impl CompletedExperiment {
    /// A completed run. It must point back to evidence on both sides.
    pub fn new(
        hypothesis_claim_id: Uuid,
        hypothesis_relation: EvidenceRelation,
        baseline_evidence_ids: Vec<Uuid>,
        intervention_evidence_ids: Vec<Uuid>,
        summary: String,
    ) -> (r: Result<Self, String>)
        ensures
            match r {
                Ok(c) => baseline_evidence_ids@.len() > 0 && intervention_evidence_ids@.len() > 0
                    && c == (CompletedExperiment {
                    hypothesis_claim_id,
                    hypothesis_relation,
                    baseline_evidence_ids,
                    intervention_evidence_ids,
                    summary,
                }),
                Err(message) => if baseline_evidence_ids@.len() == 0 {
                    message@ == "CompletedExperiment requires at least one baseline evidence id"@
                } else {
                    intervention_evidence_ids@.len() == 0 && message@
                        == "CompletedExperiment requires at least one intervention evidence id"@
                },
            },
    {
        if baseline_evidence_ids.is_empty() {
            return Err("CompletedExperiment requires at least one baseline evidence id".to_owned());
        }
        if intervention_evidence_ids.is_empty() {
            return Err(
                "CompletedExperiment requires at least one intervention evidence id".to_owned(),
            );
        }
        Ok(
            CompletedExperiment {
                hypothesis_claim_id,
                hypothesis_relation,
                baseline_evidence_ids,
                intervention_evidence_ids,
                summary,
            },
        )
    }
}

/// What came of one run. Only `Completed` says anything of the hypothesis.
#[derive(Debug, Clone, PartialEq, Eq)]
pub enum ExperimentOutcome {
    Completed(CompletedExperiment),
    /// Ran, and resolved nothing either way.
    Inconclusive { reason: String },
    /// Could not run.
    Blocked { reason: String },
    /// No executor can run it.
    Unsupported { reason: String },
    /// Was attempted and broke.
    Failed { reason: String },
}

/// The mathematical value of a [`ExperimentOutcome`].
#[verifier::ext_equal]
pub enum ExperimentOutcomeModel {
    Completed(CompletedExperimentModel),
    Inconclusive { reason: Seq<char> },
    Blocked { reason: Seq<char> },
    Unsupported { reason: Seq<char> },
    Failed { reason: Seq<char> },
}

impl DeepView for ExperimentOutcome {
    type V = ExperimentOutcomeModel;

    open spec fn deep_view(&self) -> ExperimentOutcomeModel {
        match self {
            ExperimentOutcome::Completed(v) => ExperimentOutcomeModel::Completed(v.deep_view()),
            ExperimentOutcome::Inconclusive { reason } => ExperimentOutcomeModel::Inconclusive {
                reason: reason.deep_view(),
            },
            ExperimentOutcome::Blocked { reason } => ExperimentOutcomeModel::Blocked {
                reason: reason.deep_view(),
            },
            ExperimentOutcome::Unsupported { reason } => ExperimentOutcomeModel::Unsupported {
                reason: reason.deep_view(),
            },
            ExperimentOutcome::Failed { reason } => ExperimentOutcomeModel::Failed {
                reason: reason.deep_view(),
            },
        }
    }
}

impl Deep for ExperimentOutcome {
    fn deep_clone(&self) -> (r: Self) {
        match self {
            ExperimentOutcome::Completed(v) => ExperimentOutcome::Completed(v.deep_clone()),
            ExperimentOutcome::Inconclusive { reason } => ExperimentOutcome::Inconclusive {
                reason: reason.deep_clone(),
            },
            ExperimentOutcome::Blocked { reason } => ExperimentOutcome::Blocked {
                reason: reason.deep_clone(),
            },
            ExperimentOutcome::Unsupported { reason } => ExperimentOutcome::Unsupported {
                reason: reason.deep_clone(),
            },
            ExperimentOutcome::Failed { reason } => ExperimentOutcome::Failed {
                reason: reason.deep_clone(),
            },
        }
    }

    fn deep_eq(&self, other: &Self) -> (r: bool) {
        match (self, other) {
            (ExperimentOutcome::Completed(a), ExperimentOutcome::Completed(b)) => a.deep_eq(b),
            (
                ExperimentOutcome::Inconclusive { reason: a0 },
                ExperimentOutcome::Inconclusive { reason: b0 },
            ) => a0.deep_eq(b0),
            (
                ExperimentOutcome::Blocked { reason: a0 },
                ExperimentOutcome::Blocked { reason: b0 },
            ) => a0.deep_eq(b0),
            (
                ExperimentOutcome::Unsupported { reason: a0 },
                ExperimentOutcome::Unsupported { reason: b0 },
            ) => a0.deep_eq(b0),
            (
                ExperimentOutcome::Failed { reason: a0 },
                ExperimentOutcome::Failed { reason: b0 },
            ) => a0.deep_eq(b0),
            _ => false,
        }
    }
}

/// The comparison an outcome carries.
pub open spec fn outcome_relation(outcome: ExperimentOutcomeModel) -> Option<EvidenceRelation> {
    match outcome {
        ExperimentOutcomeModel::Completed(c) => Some(c.hypothesis_relation),
        _ => None,
    }
}

impl ExperimentOutcome {
    /// The comparison this outcome carries: that of a completed run, and none
    /// for any other outcome.
    pub fn hypothesis_relation(&self) -> (r: Option<EvidenceRelation>)
        ensures
            r == outcome_relation(self.deep_view()),
            r is Some == self is Completed,
    {
        match self {
            ExperimentOutcome::Completed(c) => Some(c.hypothesis_relation),
            ExperimentOutcome::Inconclusive { .. } => None,
            ExperimentOutcome::Blocked { .. } => None,
            ExperimentOutcome::Unsupported { .. } => None,
            ExperimentOutcome::Failed { .. } => None,
        }
    }
}

/// The result of running one version of an experiment.
#[derive(Debug, Clone, PartialEq, Eq)]
pub struct ExperimentResult {
    pub experiment_id: Uuid,
    pub experiment_version: u32,
    pub outcome: ExperimentOutcome,
    /// When the run was evaluated, in RFC 3339, as the executor says.
    pub computed_at: String,
}

/// The mathematical value of a [`ExperimentResult`].
#[verifier::ext_equal]
pub struct ExperimentResultModel {
    pub experiment_id: Uuid,
    pub experiment_version: u32,
    pub outcome: ExperimentOutcomeModel,
    pub computed_at: Seq<char>,
}

impl DeepView for ExperimentResult {
    type V = ExperimentResultModel;

    open spec fn deep_view(&self) -> ExperimentResultModel {
        ExperimentResultModel {
            experiment_id: self.experiment_id.deep_view(),
            experiment_version: self.experiment_version.deep_view(),
            outcome: self.outcome.deep_view(),
            computed_at: self.computed_at.deep_view(),
        }
    }
}

impl Deep for ExperimentResult {
    fn deep_clone(&self) -> (r: Self) {
        ExperimentResult {
            experiment_id: self.experiment_id.deep_clone(),
            experiment_version: self.experiment_version.deep_clone(),
            outcome: self.outcome.deep_clone(),
            computed_at: self.computed_at.deep_clone(),
        }
    }

    fn deep_eq(&self, other: &Self) -> (r: bool) {
        self.experiment_id.deep_eq(&other.experiment_id)
            && self.experiment_version.deep_eq(&other.experiment_version)
            && self.outcome.deep_eq(&other.outcome)
            && self.computed_at.deep_eq(&other.computed_at)
    }
}

/// Specifications of the first version are the only ones read here.
pub proof fn law_only_the_first_version_is_read(version: u32)
    ensures
        experiment_schema_supported(version) <==> version == 1,
{
    let supported = SUPPORTED_EXPERIMENT_SCHEMA_VERSIONS@;
    assert(supported.len() == 1 && supported[0] == 1);
    assert(version == 1 ==> supported.contains(supported[0]));
}

/// What is not permitted is forbidden: an experiment may do what its
/// specification lists, and nothing where it lists nothing.
pub proof fn law_only_listed_effects_are_permitted(
    wire: Option<Seq<SideEffectClass>>,
    class: SideEffectClass,
)
    ensures
        wire_permissions(wire).contains(class) <==> (wire matches Some(listed) && exists|i: int|
            0 <= i < listed.len() && #[trigger] listed[i] == class),
{
    match wire {
        Some(listed) => {
            assert(listed.to_set().contains(class) == listed.contains(class));
        },
        None => {},
    }
}

} // verus!

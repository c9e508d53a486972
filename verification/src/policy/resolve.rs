//! Precedence resolution.
//!
//! Resolution never fails. The bindings that apply to the device are grouped
//! by level. Within a level the strictest value of a field wins, and bindings
//! that disagree are reported. Across levels the more specific one wins,
//! except that a pinned field may only be tightened; an attempt to loosen it
//! is reported and the pinned value kept. A field no binding sets takes its
//! baseline value. A signal that the policy requires and the device cannot
//! expose is reported. The order in which the bindings are given does not
//! matter.
use vstd::prelude::*;

use super::content::{baseline_values, PolicyContent, ResolvedValues, ResolvedValuesModel};
use super::diagnostics::{
    plain_diagnostic, DiagnosticCode, DiagnosticSeverity, PolicyDiagnostic, PolicyDiagnosticModel,
};
use super::field::{
    apply_field_to_resolved, at_least_as_strict, field_met, field_of, get_field,
    is_at_least_as_strict, meet_field, with_field, FieldModel, FieldValue, PolicyFieldId,
};
use super::revision::{revision_reference, PolicyRevisionRef, PolicyRevisionRefModel};
use super::target::{
    binding_applies, binding_notes, scope_level, BoundRevision, BoundRevisionModel, DeviceContext,
    DeviceContextModel, TargetLevel,
};
use crate::capabilities::{
    declared_state, CapabilitySignalModel, RuntimeCapabilities, SignalAvailability, SignalClass,
};
use crate::ident::Uuid;
use crate::model::{deep_seq, known_tag, lemma_deep_push, vec_contains, Deep, Tag};
use crate::order::{stable_sort, stably_sorted};

verus! {

/// Where a resolved value came from.
#[derive(Debug, Clone, PartialEq, Eq)]
pub enum FieldProvenance {
    Baseline,
    Layer { level: TargetLevel, binding_id: Uuid, revision: PolicyRevisionRef },
    Pinned { level: TargetLevel, binding_id: Uuid, revision: PolicyRevisionRef },
}

/// The mathematical value of a [`FieldProvenance`].
#[verifier::ext_equal]
pub enum FieldProvenanceModel {
    Baseline,
    Layer { level: TargetLevel, binding_id: Uuid, revision: PolicyRevisionRefModel },
    Pinned { level: TargetLevel, binding_id: Uuid, revision: PolicyRevisionRefModel },
}

impl DeepView for FieldProvenance {
    type V = FieldProvenanceModel;

    open spec fn deep_view(&self) -> FieldProvenanceModel {
        match self {
            FieldProvenance::Baseline => FieldProvenanceModel::Baseline,
            FieldProvenance::Layer { level, binding_id, revision } => FieldProvenanceModel::Layer {
                level: *level,
                binding_id: *binding_id,
                revision: revision.deep_view(),
            },
            FieldProvenance::Pinned { level, binding_id, revision } => FieldProvenanceModel::Pinned {
                level: *level,
                binding_id: *binding_id,
                revision: revision.deep_view(),
            },
        }
    }
}

impl Deep for FieldProvenance {
    fn deep_clone(&self) -> (r: Self) {
        match self {
            FieldProvenance::Baseline => FieldProvenance::Baseline,
            FieldProvenance::Layer { level, binding_id, revision } => FieldProvenance::Layer {
                level: *level,
                binding_id: *binding_id,
                revision: revision.deep_clone(),
            },
            FieldProvenance::Pinned { level, binding_id, revision } => FieldProvenance::Pinned {
                level: *level,
                binding_id: *binding_id,
                revision: revision.deep_clone(),
            },
        }
    }

    fn deep_eq(&self, other: &Self) -> (r: bool) {
        match (self, other) {
            (FieldProvenance::Baseline, FieldProvenance::Baseline) => true,
            (
                FieldProvenance::Layer { level: l1, binding_id: b1, revision: r1 },
                FieldProvenance::Layer { level: l2, binding_id: b2, revision: r2 },
            ) => *l1 == *l2 && *b1 == *b2 && r1.deep_eq(r2),
            (
                FieldProvenance::Pinned { level: l1, binding_id: b1, revision: r1 },
                FieldProvenance::Pinned { level: l2, binding_id: b2, revision: r2 },
            ) => *l1 == *l2 && *b1 == *b2 && r1.deep_eq(r2),
            _ => false,
        }
    }
}

/// The outcome of resolution.
#[derive(Debug, Clone, PartialEq, Eq)]
pub struct ResolvedPolicy {
    pub values: ResolvedValues,
    /// One entry per known field, in declaration order.
    pub provenance: Vec<(PolicyFieldId, FieldProvenance)>,
    /// The revisions that contributed a value, without repetitions. A value
    /// that a pin refused contributes nothing.
    pub contributing: Vec<PolicyRevisionRef>,
}

/// The mathematical value of a [`ResolvedPolicy`].
#[verifier::ext_equal]
pub struct ResolvedPolicyModel {
    pub values: ResolvedValuesModel,
    pub provenance: Seq<(Tag, FieldProvenanceModel)>,
    pub contributing: Seq<PolicyRevisionRefModel>,
}

impl DeepView for ResolvedPolicy {
    type V = ResolvedPolicyModel;

    open spec fn deep_view(&self) -> ResolvedPolicyModel {
        ResolvedPolicyModel {
            values: self.values.deep_view(),
            provenance: self.provenance.deep_view(),
            contributing: self.contributing.deep_view(),
        }
    }
}

impl Deep for ResolvedPolicy {
    fn deep_clone(&self) -> (r: Self) {
        ResolvedPolicy {
            values: self.values.deep_clone(),
            provenance: self.provenance.deep_clone(),
            contributing: self.contributing.deep_clone(),
        }
    }

    fn deep_eq(&self, other: &Self) -> (r: bool) {
        self.values.deep_eq(&other.values)
            && self.provenance.deep_eq(&other.provenance)
            && self.contributing.deep_eq(&other.contributing)
    }
}

/// A field's value and where it came from.
#[derive(Debug, Clone, PartialEq, Eq)]
pub struct Slot {
    pub value: FieldValue,
    pub provenance: FieldProvenance,
}

/// The mathematical value of a [`Slot`].
#[verifier::ext_equal]
pub struct SlotModel {
    pub value: FieldModel,
    pub provenance: FieldProvenanceModel,
}

impl DeepView for Slot {
    type V = SlotModel;

    open spec fn deep_view(&self) -> SlotModel {
        SlotModel {
            value: self.value.deep_view(),
            provenance: self.provenance.deep_view(),
        }
    }
}

impl Deep for Slot {
    fn deep_clone(&self) -> (r: Self) {
        Slot {
            value: self.value.deep_clone(),
            provenance: self.provenance.deep_clone(),
        }
    }

    fn deep_eq(&self, other: &Self) -> (r: bool) {
        self.value.deep_eq(&other.value)
            && self.provenance.deep_eq(&other.provenance)
    }
}

/// What the levels seen so far say about a field.
#[derive(Debug, Clone, PartialEq, Eq)]
pub struct FieldState {
    pub current: Option<Slot>,
    /// The pinned value that later levels may not loosen.
    pub floor: Option<Slot>,
}

/// The mathematical value of a [`FieldState`].
#[verifier::ext_equal]
pub struct FieldStateModel {
    pub current: Option<SlotModel>,
    pub floor: Option<SlotModel>,
}

impl DeepView for FieldState {
    type V = FieldStateModel;

    open spec fn deep_view(&self) -> FieldStateModel {
        FieldStateModel {
            current: self.current.deep_view(),
            floor: self.floor.deep_view(),
        }
    }
}

impl Deep for FieldState {
    fn deep_clone(&self) -> (r: Self) {
        FieldState {
            current: self.current.deep_clone(),
            floor: self.floor.deep_clone(),
        }
    }

    fn deep_eq(&self, other: &Self) -> (r: bool) {
        self.current.deep_eq(&other.current)
            && self.floor.deep_eq(&other.floor)
    }
}

/// What one binding says about a field.
#[derive(Debug, Clone, PartialEq, Eq)]
pub struct Candidate {
    pub value: FieldValue,
    pub binding_id: Uuid,
    pub reference: PolicyRevisionRef,
}

/// The mathematical value of a [`Candidate`].
#[verifier::ext_equal]
pub struct CandidateModel {
    pub value: FieldModel,
    pub binding_id: Uuid,
    pub reference: PolicyRevisionRefModel,
}

impl DeepView for Candidate {
    type V = CandidateModel;

    open spec fn deep_view(&self) -> CandidateModel {
        CandidateModel {
            value: self.value.deep_view(),
            binding_id: self.binding_id.deep_view(),
            reference: self.reference.deep_view(),
        }
    }
}

impl Deep for Candidate {
    fn deep_clone(&self) -> (r: Self) {
        Candidate {
            value: self.value.deep_clone(),
            binding_id: self.binding_id.deep_clone(),
            reference: self.reference.deep_clone(),
        }
    }

    fn deep_eq(&self, other: &Self) -> (r: bool) {
        self.value.deep_eq(&other.value)
            && self.binding_id.deep_eq(&other.binding_id)
            && self.reference.deep_eq(&other.reference)
    }
}

/// The level at a position, from most general to most specific.
pub open spec fn level_at(i: int) -> TargetLevel {
    if i == 0 {
        TargetLevel::Org
    } else if i == 1 {
        TargetLevel::Team
    } else if i == 2 {
        TargetLevel::Project
    } else if i == 3 {
        TargetLevel::Device
    } else {
        TargetLevel::LocalUser
    }
}

fn nth_level(i: usize) -> (r: TargetLevel)
    ensures
        r == level_at(i as int),
{
    match i {
        0 => TargetLevel::Org,
        1 => TargetLevel::Team,
        2 => TargetLevel::Project,
        3 => TargetLevel::Device,
        _ => TargetLevel::LocalUser,
    }
}

/// The bindings that apply to a device, in order.
pub open spec fn applicable(bound: Seq<BoundRevisionModel>, ctx: DeviceContextModel) -> Seq<
    BoundRevisionModel,
>
    decreases bound.len(),
{
    if bound.len() == 0 {
        Seq::empty()
    } else if binding_applies(bound.last().binding, ctx) {
        applicable(bound.drop_last(), ctx).push(bound.last())
    } else {
        applicable(bound.drop_last(), ctx)
    }
}

/// What evaluating the bindings against a device reports, in order.
pub open spec fn selection_notes(bound: Seq<BoundRevisionModel>, ctx: DeviceContextModel) -> Seq<
    PolicyDiagnosticModel,
>
    decreases bound.len(),
{
    if bound.len() == 0 {
        Seq::empty()
    } else {
        selection_notes(bound.drop_last(), ctx) + binding_notes(bound.last().binding, ctx)
    }
}

/// The bindings of one level, in order.
pub open spec fn at_level(bound: Seq<BoundRevisionModel>, level: TargetLevel) -> Seq<
    BoundRevisionModel,
>
    decreases bound.len(),
{
    if bound.len() == 0 {
        Seq::empty()
    } else if scope_level(bound.last().binding.scope) == level {
        at_level(bound.drop_last(), level).push(bound.last())
    } else {
        at_level(bound.drop_last(), level)
    }
}

/// What the bindings that set a field say about it, in order.
pub open spec fn candidates(bound: Seq<BoundRevisionModel>, field: Tag) -> Seq<CandidateModel>
    decreases bound.len(),
{
    if bound.len() == 0 {
        Seq::empty()
    } else {
        match field_of(bound.last().revision.body.content, field) {
            Some(value) => candidates(bound.drop_last(), field).push(
                CandidateModel {
                    value,
                    binding_id: bound.last().binding.binding_id,
                    reference: revision_reference(bound.last().revision),
                },
            ),
            None => candidates(bound.drop_last(), field),
        }
    }
}

/// The strictest common value of all candidates.
pub open spec fn merged_value(cs: Seq<CandidateModel>) -> FieldModel
    decreases cs.len(),
{
    if cs.len() <= 1 {
        cs[0].value
    } else {
        field_met(merged_value(cs.drop_last()), cs.last().value)
    }
}

/// The candidate a level's value is attributed to: the one of the smallest
/// binding identifier, the first of them if several have it.
pub open spec fn representative(cs: Seq<CandidateModel>) -> CandidateModel
    decreases cs.len(),
{
    if cs.len() <= 1 {
        cs[0]
    } else {
        let r = representative(cs.drop_last());
        if cs.last().binding_id.0 < r.binding_id.0 {
            cs.last()
        } else {
            r
        }
    }
}

/// Whether the candidates disagree.
pub open spec fn differing(cs: Seq<CandidateModel>) -> bool {
    exists|i: int| 0 <= i < cs.len() && (#[trigger] cs[i]).value != cs[0].value
}

/// Disabled sensors and required signals accumulate over the levels; every
/// other field is replaced by the more specific level.
pub open spec fn accumulates(field: Tag) -> bool {
    field == known_tag(4) || field == known_tag(5)
}

/// What a level says about a field, given what the levels before it said.
pub open spec fn level_value(
    state: FieldStateModel,
    cs: Seq<CandidateModel>,
    field: Tag,
) -> FieldModel {
    match state.current {
        Some(slot) => if accumulates(field) {
            field_met(slot.value, merged_value(cs))
        } else {
            merged_value(cs)
        },
        None => merged_value(cs),
    }
}

/// Whether a level would loosen what a more general level pinned.
pub open spec fn loosens_pin(state: FieldStateModel, cs: Seq<CandidateModel>, field: Tag) -> bool {
    state.floor matches Some(floor) && !at_least_as_strict(
        level_value(state, cs, field),
        floor.value,
    )
}

/// The value accepted at a level: what the level says, unless that would
/// loosen a pin; then the pinned value stands.
pub open spec fn accepted(
    state: FieldStateModel,
    cs: Seq<CandidateModel>,
    field: Tag,
    level: TargetLevel,
) -> SlotModel {
    if loosens_pin(state, cs, field) {
        state.floor.unwrap()
    } else {
        SlotModel {
            value: level_value(state, cs, field),
            provenance: FieldProvenanceModel::Layer {
                level,
                binding_id: representative(cs).binding_id,
                revision: representative(cs).reference,
            },
        }
    }
}

/// The provenance of a pin set at a level: that of the last binding there
/// whose revision pins the field.
pub open spec fn pin_at(
    bound: Seq<BoundRevisionModel>,
    field: Tag,
    level: TargetLevel,
) -> Option<FieldProvenanceModel>
    decreases bound.len(),
{
    if bound.len() == 0 {
        None
    } else if bound.last().revision.body.pinned_fields.contains(field) {
        Some(
            FieldProvenanceModel::Pinned {
                level,
                binding_id: bound.last().binding.binding_id,
                revision: revision_reference(bound.last().revision),
            },
        )
    } else {
        pin_at(bound.drop_last(), field, level)
    }
}

/// What is known of a field once one more level has been looked at.
pub open spec fn state_after(
    state: FieldStateModel,
    bound: Seq<BoundRevisionModel>,
    field: Tag,
    level: TargetLevel,
) -> FieldStateModel {
    let cs = candidates(bound, field);
    if cs.len() == 0 {
        state
    } else {
        match pin_at(bound, field, level) {
            Some(provenance) => {
                let slot = SlotModel { value: accepted(state, cs, field, level).value, provenance };
                FieldStateModel { current: Some(slot), floor: Some(slot) }
            },
            None => FieldStateModel {
                current: Some(accepted(state, cs, field, level)),
                floor: state.floor,
            },
        }
    }
}

pub open spec fn binding_ids(cs: Seq<CandidateModel>) -> Seq<Uuid> {
    Seq::new(cs.len(), |i: int| cs[i].binding_id)
}

pub open spec fn references(cs: Seq<CandidateModel>) -> Seq<PolicyRevisionRefModel> {
    Seq::new(cs.len(), |i: int| cs[i].reference)
}

/// An error about bindings of one level that disagree on a field.
pub open spec fn conflict_diagnostic(
    cs: Seq<CandidateModel>,
    field: Tag,
    level: TargetLevel,
) -> PolicyDiagnosticModel {
    PolicyDiagnosticModel {
        field: Some(field),
        bindings: binding_ids(cs),
        revisions: references(cs),
        ..plain_diagnostic(
            DiagnosticCode::ConflictingBindingsAtLevel,
            DiagnosticSeverity::Error,
            "multiple bindings at "@ + level.debug_text() + " set "@ + PolicyFieldId::debug_text(
                field,
            ) + " to differing values"@,
            "republish a single binding at this level for this field, or move the exception to a more specific level"@,
        )
    }
}

/// The level a value was set at.
pub open spec fn provenance_level(provenance: FieldProvenanceModel) -> Option<TargetLevel> {
    match provenance {
        FieldProvenanceModel::Baseline => None,
        FieldProvenanceModel::Layer { level, .. } => Some(level),
        FieldProvenanceModel::Pinned { level, .. } => Some(level),
    }
}

pub open spec fn optional_level_text(level: Option<TargetLevel>) -> Seq<char> {
    match level {
        Some(l) => "Some("@ + l.debug_text() + ")"@,
        None => "None"@,
    }
}

/// An error about a level that would loosen a pinned field.
pub open spec fn pin_violation_diagnostic(
    state: FieldStateModel,
    cs: Seq<CandidateModel>,
    field: Tag,
    level: TargetLevel,
) -> PolicyDiagnosticModel {
    PolicyDiagnosticModel {
        field: Some(field),
        bindings: seq![representative(cs).binding_id],
        revisions: seq![representative(cs).reference],
        ..plain_diagnostic(
            DiagnosticCode::PinViolation,
            DiagnosticSeverity::Error,
            PolicyFieldId::debug_text(field) + " pinned at "@ + optional_level_text(
                provenance_level(state.floor.unwrap().provenance),
            ) + " cannot be loosened at "@ + level.debug_text(),
            "remove the conflicting override, or tighten it to at least the pinned value"@,
        )
    }
}

/// What looking at one field of one level reports.
pub open spec fn step_notes(
    state: FieldStateModel,
    bound: Seq<BoundRevisionModel>,
    field: Tag,
    level: TargetLevel,
) -> Seq<PolicyDiagnosticModel> {
    let cs = candidates(bound, field);
    if cs.len() == 0 {
        Seq::empty()
    } else {
        let conflict = if differing(cs) {
            seq![conflict_diagnostic(cs, field, level)]
        } else {
            Seq::empty()
        };
        let violation = if loosens_pin(state, cs, field) {
            seq![pin_violation_diagnostic(state, cs, field, level)]
        } else {
            Seq::empty()
        };
        conflict + violation
    }
}

/// `refs` with one more reference, unless it is already there.
pub open spec fn ref_added(
    refs: Seq<PolicyRevisionRefModel>,
    r: PolicyRevisionRefModel,
) -> Seq<PolicyRevisionRefModel> {
    if refs.contains(r) {
        refs
    } else {
        refs.push(r)
    }
}

/// The contributing revisions once one field of one level has been looked at:
/// one more, where the level sets the field and no pin refuses its value.
pub open spec fn step_contribution(
    refs: Seq<PolicyRevisionRefModel>,
    state: FieldStateModel,
    bound: Seq<BoundRevisionModel>,
    field: Tag,
) -> Seq<PolicyRevisionRefModel> {
    let cs = candidates(bound, field);
    if cs.len() == 0 || loosens_pin(state, cs, field) {
        refs
    } else {
        ref_added(refs, representative(cs).reference)
    }
}

/// What is known of a field before any level has been looked at.
pub open spec fn no_state() -> FieldStateModel {
    FieldStateModel { current: None, floor: None }
}

/// What is known of a field after the first `n` levels.
pub open spec fn field_state(bound: Seq<BoundRevisionModel>, field: Tag, n: int) -> FieldStateModel
    decreases n,
{
    if n <= 0 {
        no_state()
    } else {
        state_after(
            field_state(bound, field, n - 1),
            at_level(bound, level_at(n - 1)),
            field,
            level_at(n - 1),
        )
    }
}

/// What the first `f` fields of level `l` report.
pub open spec fn level_notes(bound: Seq<BoundRevisionModel>, l: int, f: int) -> Seq<
    PolicyDiagnosticModel,
>
    decreases f,
{
    if f <= 0 {
        Seq::empty()
    } else {
        level_notes(bound, l, f - 1) + step_notes(
            field_state(bound, known_tag(f - 1), l),
            at_level(bound, level_at(l)),
            known_tag(f - 1),
            level_at(l),
        )
    }
}

/// What the first `l` levels report.
pub open spec fn resolution_notes(bound: Seq<BoundRevisionModel>, l: int) -> Seq<
    PolicyDiagnosticModel,
>
    decreases l,
{
    if l <= 0 {
        Seq::empty()
    } else {
        resolution_notes(bound, l - 1) + level_notes(bound, l - 1, 9)
    }
}

/// `refs` with what the first `f` fields of level `l` contribute.
pub open spec fn level_contribution(
    refs: Seq<PolicyRevisionRefModel>,
    bound: Seq<BoundRevisionModel>,
    l: int,
    f: int,
) -> Seq<PolicyRevisionRefModel>
    decreases f,
{
    if f <= 0 {
        refs
    } else {
        step_contribution(
            level_contribution(refs, bound, l, f - 1),
            field_state(bound, known_tag(f - 1), l),
            at_level(bound, level_at(l)),
            known_tag(f - 1),
        )
    }
}

/// The revisions that contribute at the first `l` levels.
pub open spec fn contributions(bound: Seq<BoundRevisionModel>, l: int) -> Seq<
    PolicyRevisionRefModel,
>
    decreases l,
{
    if l <= 0 {
        Seq::empty()
    } else {
        level_contribution(contributions(bound, l - 1), bound, l - 1, 9)
    }
}

/// The baseline with the first `f` fields replaced by what was resolved.
pub open spec fn resolved_values(bound: Seq<BoundRevisionModel>, f: int) -> ResolvedValuesModel
    decreases f,
{
    if f <= 0 {
        baseline_values()
    } else {
        match field_state(bound, known_tag(f - 1), 5).current {
            Some(slot) => with_field(
                resolved_values(bound, f - 1),
                known_tag(f - 1),
                slot.value,
            ),
            None => resolved_values(bound, f - 1),
        }
    }
}

/// Where a field's resolved value came from.
pub open spec fn resolved_provenance(
    bound: Seq<BoundRevisionModel>,
    field: Tag,
) -> FieldProvenanceModel {
    match field_state(bound, field, 5).current {
        Some(slot) => slot.provenance,
        None => FieldProvenanceModel::Baseline,
    }
}

/// What the applicable bindings resolve to.
pub open spec fn resolved_policy(bound: Seq<BoundRevisionModel>) -> ResolvedPolicyModel {
    ResolvedPolicyModel {
        values: resolved_values(bound, 9),
        provenance: Seq::new(9, |f: int| (known_tag(f), resolved_provenance(bound, known_tag(f)))),
        contributing: contributions(bound, 5),
    }
}

pub open spec fn no_applicable_policy_diagnostic() -> PolicyDiagnosticModel {
    plain_diagnostic(
        DiagnosticCode::NoApplicablePolicy,
        DiagnosticSeverity::Info,
        "no policy binding applies to this device; using baseline defaults"@,
        "publish a binding that targets this org/team/project/device, or accept baseline defaults"@,
    )
}

/// A warning about a required signal that the device cannot expose.
pub open spec fn unsupported_requirement_diagnostic(class: Tag) -> PolicyDiagnosticModel {
    PolicyDiagnosticModel {
        field: Some(known_tag(5)),
        ..plain_diagnostic(
            DiagnosticCode::RequiredSignalUnavailable,
            DiagnosticSeverity::Warning,
            "policy requires signal "@ + SignalClass::debug_text(class)
                + ", which this device reports as unsupported"@,
            "drop the requirement for this device, or run an agent that exposes the signal"@,
        )
    }
}

/// One warning for each required signal that the device declares unsupported.
pub open spec fn requirement_notes(
    required: Seq<Tag>,
    declared: Seq<CapabilitySignalModel>,
) -> Seq<PolicyDiagnosticModel>
    decreases required.len(),
{
    if required.len() == 0 {
        Seq::empty()
    } else if declared_state(declared, required.last()) == known_tag(1) {
        requirement_notes(required.drop_last(), declared).push(
            unsupported_requirement_diagnostic(required.last()),
        )
    } else {
        requirement_notes(required.drop_last(), declared)
    }
}

/// What a set of bindings resolves to on a device, and what that reports.
pub open spec fn resolution(
    bound: Seq<BoundRevisionModel>,
    ctx: DeviceContextModel,
) -> (ResolvedPolicyModel, Seq<PolicyDiagnosticModel>) {
    let ordered = stably_sorted::<&BoundRevision>(bound);
    let chosen = applicable(ordered, ctx);
    let notes = selection_notes(ordered, ctx);
    (
        resolved_policy(chosen),
        if chosen.len() == 0 {
            notes.push(no_applicable_policy_diagnostic())
        } else {
            notes + resolution_notes(chosen, 5) + requirement_notes(
                resolved_values(chosen, 9).sensors_required_signals,
                ctx.capabilities.signals,
            )
        },
    )
}

fn note_unsupported_requirements(
    required: &Vec<SignalClass>,
    capabilities: &RuntimeCapabilities,
    diagnostics: &mut Vec<PolicyDiagnostic>,
)
    ensures
        final(diagnostics).deep_view() == old(diagnostics).deep_view() + requirement_notes(
            required.deep_view(),
            capabilities.signals.deep_view(),
        ),
{
    let ghost all = required.deep_view();
    let ghost declared = capabilities.signals.deep_view();
    let ghost start = diagnostics.deep_view();
    let mut i: usize = 0;
    assert(all.take(0) =~= Seq::<Tag>::empty());
    assert(start + Seq::<PolicyDiagnosticModel>::empty() =~= start);
    while i < required.len()
        invariant
            i <= required.len(),
            all == required.deep_view(),
            declared == capabilities.signals.deep_view(),
            diagnostics.deep_view() == start + requirement_notes(all.take(i as int), declared),
        decreases required.len() - i,
    {
        let class = &required[i];
        assert(all[i as int] == class.deep_view());
        assert(all.take(i + 1).drop_last() =~= all.take(i as int));
        let ghost before = *diagnostics;
        if matches!(capabilities.state_of(class), SignalAvailability::Unsupported) {
            let message = "policy requires signal ".to_owned().concat(
                class.debug_name().as_str(),
            ).concat(", which this device reports as unsupported");
            let d = PolicyDiagnostic::new(
                DiagnosticCode::RequiredSignalUnavailable,
                DiagnosticSeverity::Warning,
                message,
                "drop the requirement for this device, or run an agent that exposes the signal",
            ).with_field(PolicyFieldId::SensorsRequiredSignals);
            diagnostics.push(d);
            proof {
                lemma_deep_push(before, *diagnostics, d);
                let noted = requirement_notes(all.take(i as int), declared);
                assert((start + noted).push(d.deep_view()) =~= start + noted.push(d.deep_view()));
            }
        }
        i = i + 1;
    }
    assert(all.take(all.len() as int) =~= all);
}

fn info_no_applicable_policy() -> (r: PolicyDiagnostic)
    ensures
        r.deep_view() == no_applicable_policy_diagnostic(),
{
    PolicyDiagnostic::new(
        DiagnosticCode::NoApplicablePolicy,
        DiagnosticSeverity::Info,
        "no policy binding applies to this device; using baseline defaults".to_owned(),
        "publish a binding that targets this org/team/project/device, or accept baseline defaults",
    )
}

fn select<'a>(
    bound: &Vec<&'a BoundRevision>,
    ctx: &DeviceContext,
    diagnostics: &mut Vec<PolicyDiagnostic>,
) -> (r: Vec<&'a BoundRevision>)
    ensures
        r.deep_view() == applicable(bound.deep_view(), ctx.deep_view()),
        final(diagnostics).deep_view() == old(diagnostics).deep_view() + selection_notes(
            bound.deep_view(),
            ctx.deep_view(),
        ),
{
    let ghost all = bound.deep_view();
    let ghost start = diagnostics.deep_view();
    let mut out: Vec<&'a BoundRevision> = Vec::new();
    let mut i: usize = 0;
    assert(out.deep_view() =~= Seq::<BoundRevisionModel>::empty());
    assert(start + Seq::<PolicyDiagnosticModel>::empty() =~= start);
    while i < bound.len()
        invariant
            i <= bound.len(),
            all == bound.deep_view(),
            out.deep_view() == applicable(all.take(i as int), ctx.deep_view()),
            diagnostics.deep_view() == start + selection_notes(
                all.take(i as int),
                ctx.deep_view(),
            ),
        decreases bound.len() - i,
    {
        let ghost t = all.take(i as int + 1);
        proof {
            assert(t.drop_last() =~= all.take(i as int));
            assert(t.last() == bound@[i as int].deep_view());
        }
        let b: &'a BoundRevision = bound[i];
        let ghost noted = diagnostics.deep_view();
        if b.binding().matches(ctx, diagnostics) {
            let ghost before = out;
            out.push(b);
            proof {
                lemma_deep_push(before, out, b);
            }
        }
        proof {
            assert(start + selection_notes(all.take(i as int), ctx.deep_view()) + binding_notes(
                t.last().binding,
                ctx.deep_view(),
            ) =~= start + selection_notes(t, ctx.deep_view()));
        }
        i = i + 1;
    }
    assert(all.take(all.len() as int) =~= all);
    out
}

fn bindings_at<'a>(bound: &Vec<&'a BoundRevision>, level: TargetLevel) -> (r: Vec<
    &'a BoundRevision,
>)
    ensures
        r.deep_view() == at_level(bound.deep_view(), level),
{
    let ghost all = bound.deep_view();
    let mut out: Vec<&'a BoundRevision> = Vec::new();
    let mut i: usize = 0;
    assert(out.deep_view() =~= Seq::<BoundRevisionModel>::empty());
    while i < bound.len()
        invariant
            i <= bound.len(),
            all == bound.deep_view(),
            out.deep_view() == at_level(all.take(i as int), level),
        decreases bound.len() - i,
    {
        proof {
            assert(all.take(i as int + 1).drop_last() =~= all.take(i as int));
            assert(all.take(i as int + 1).last() == bound@[i as int].deep_view());
        }
        let b: &'a BoundRevision = bound[i];
        if b.binding().scope.level() == level {
            let ghost before = out;
            out.push(b);
            proof {
                lemma_deep_push(before, out, b);
            }
        }
        i = i + 1;
    }
    assert(all.take(all.len() as int) =~= all);
    out
}

fn collect_candidates(bound: &Vec<&BoundRevision>, field: &PolicyFieldId) -> (r: Vec<Candidate>)
    ensures
        r.deep_view() == candidates(bound.deep_view(), field.deep_view()),
{
    let ghost all = bound.deep_view();
    let ghost f = field.deep_view();
    let mut out: Vec<Candidate> = Vec::new();
    let mut i: usize = 0;
    assert(out.deep_view() =~= Seq::<CandidateModel>::empty());
    while i < bound.len()
        invariant
            i <= bound.len(),
            all == bound.deep_view(),
            f == field.deep_view(),
            out.deep_view() == candidates(all.take(i as int), f),
        decreases bound.len() - i,
    {
        proof {
            assert(all.take(i as int + 1).drop_last() =~= all.take(i as int));
            assert(all.take(i as int + 1).last() == bound@[i as int].deep_view());
        }
        let b = bound[i];
        if let Some(value) = get_field(&b.revision().body().content, field) {
            let c = Candidate {
                value,
                binding_id: b.binding().binding_id,
                reference: b.revision().reference(),
            };
            let ghost before = out;
            out.push(c);
            proof {
                lemma_deep_push(before, out, c);
            }
        }
        i = i + 1;
    }
    assert(all.take(all.len() as int) =~= all);
    out
}

fn merge_candidates(cs: &Vec<Candidate>) -> (r: FieldValue)
    requires
        cs.len() > 0,
    ensures
        r.deep_view() == merged_value(cs.deep_view()),
{
    let ghost all = cs.deep_view();
    let mut out = cs[0].value.deep_clone();
    let mut i: usize = 1;
    assert(all.take(1)[0] == cs@[0].deep_view());
    while i < cs.len()
        invariant
            1 <= i <= cs.len(),
            all == cs.deep_view(),
            out.deep_view() == merged_value(all.take(i as int)),
        decreases cs.len() - i,
    {
        proof {
            assert(all.take(i as int + 1).drop_last() =~= all.take(i as int));
            assert(all.take(i as int + 1).last() == cs@[i as int].deep_view());
        }
        out = meet_field(&out, &cs[i].value);
        i = i + 1;
    }
    assert(all.take(all.len() as int) =~= all);
    out
}

fn find_representative(cs: &Vec<Candidate>) -> (r: usize)
    requires
        cs.len() > 0,
    ensures
        r < cs.len(),
        cs.deep_view()[r as int] == representative(cs.deep_view()),
{
    let ghost all = cs.deep_view();
    let mut best: usize = 0;
    let mut i: usize = 1;
    assert(all.take(1)[0] == all[0]);
    while i < cs.len()
        invariant
            1 <= i <= cs.len(),
            best < i,
            all == cs.deep_view(),
            all[best as int] == representative(all.take(i as int)),
        decreases cs.len() - i,
    {
        proof {
            assert(all.take(i as int + 1).drop_last() =~= all.take(i as int));
            assert(all.take(i as int + 1).last() == cs@[i as int].deep_view());
            assert(all[best as int] == cs@[best as int].deep_view());
        }
        if cs[i].binding_id.0 < cs[best].binding_id.0 {
            best = i;
        }
        i = i + 1;
    }
    assert(all.take(all.len() as int) =~= all);
    best
}

fn candidates_differ(cs: &Vec<Candidate>) -> (r: bool)
    requires
        cs.len() > 0,
    ensures
        r == differing(cs.deep_view()),
{
    let ghost all = cs.deep_view();
    let mut i: usize = 0;
    while i < cs.len()
        invariant
            i <= cs.len(),
            cs.len() > 0,
            all == cs.deep_view(),
            forall|j: int| 0 <= j < i ==> (#[trigger] all[j]).value == all[0].value,
        decreases cs.len() - i,
    {
        assert(all[i as int] == cs@[i as int].deep_view());
        assert(all[0] == cs@[0].deep_view());
        if !cs[i].value.deep_eq(&cs[0].value) {
            return true;
        }
        i = i + 1;
    }
    false
}

fn collect_ids(cs: &Vec<Candidate>) -> (r: Vec<Uuid>)
    ensures
        r.deep_view() == binding_ids(cs.deep_view()),
{
    let mut out: Vec<Uuid> = Vec::new();
    let mut i: usize = 0;
    while i < cs.len()
        invariant
            i <= cs.len(),
            out.len() == i,
            forall|j: int| 0 <= j < i ==> #[trigger] out@[j] == cs@[j].binding_id,
        decreases cs.len() - i,
    {
        out.push(cs[i].binding_id);
        i = i + 1;
    }
    assert(out.deep_view() =~= binding_ids(cs.deep_view()));
    out
}

fn collect_references(cs: &Vec<Candidate>) -> (r: Vec<PolicyRevisionRef>)
    ensures
        r.deep_view() == references(cs.deep_view()),
{
    let mut out: Vec<PolicyRevisionRef> = Vec::new();
    let mut i: usize = 0;
    while i < cs.len()
        invariant
            i <= cs.len(),
            out.len() == i,
            forall|j: int|
                0 <= j < i ==> (#[trigger] out@[j]).deep_view() == cs@[j].reference.deep_view(),
        decreases cs.len() - i,
    {
        out.push(cs[i].reference.deep_clone());
        i = i + 1;
    }
    assert(out.deep_view() =~= references(cs.deep_view()));
    out
}

fn is_accumulate_field(field: &PolicyFieldId) -> (r: bool)
    ensures
        r == accumulates(field.deep_view()),
{
    match field {
        PolicyFieldId::SensorsDisabled => true,
        PolicyFieldId::SensorsRequiredSignals => true,
        _ => false,
    }
}

fn find_pin(bound: &Vec<&BoundRevision>, field: &PolicyFieldId, level: TargetLevel) -> (r: Option<
    FieldProvenance,
>)
    ensures
        r.deep_view() == pin_at(bound.deep_view(), field.deep_view(), level),
{
    let ghost all = bound.deep_view();
    let ghost f = field.deep_view();
    let mut n: usize = bound.len();
    assert(all.take(all.len() as int) =~= all);
    while n > 0
        invariant
            n <= bound.len(),
            all == bound.deep_view(),
            f == field.deep_view(),
            pin_at(all, f, level) == pin_at(all.take(n as int), f, level),
        decreases n,
    {
        proof {
            assert(all.take(n as int).drop_last() =~= all.take(n as int - 1));
            assert(all.take(n as int).last() == bound@[n as int - 1].deep_view());
        }
        let b = bound[n - 1];
        if b.revision().body().pinned_fields.contains(field) {
            return Some(
                FieldProvenance::Pinned {
                    level,
                    binding_id: b.binding().binding_id,
                    revision: b.revision().reference(),
                },
            );
        }
        n = n - 1;
    }
    None
}

fn level_text(provenance: &FieldProvenance) -> (r: String)
    ensures
        r@ == optional_level_text(provenance_level(provenance.deep_view())),
{
    match provenance {
        FieldProvenance::Baseline => "None".to_owned(),
        FieldProvenance::Layer { level, .. } => "Some(".to_owned().concat(
            level.debug_name().as_str(),
        ).concat(")"),
        FieldProvenance::Pinned { level, .. } => "Some(".to_owned().concat(
            level.debug_name().as_str(),
        ).concat(")"),
    }
}

fn report_conflict(cs: &Vec<Candidate>, field: &PolicyFieldId, level: TargetLevel) -> (r:
    PolicyDiagnostic)
    ensures
        r.deep_view() == conflict_diagnostic(cs.deep_view(), field.deep_view(), level),
{
    let message = "multiple bindings at ".to_owned().concat(level.debug_name().as_str()).concat(
        " set ",
    ).concat(field.debug_name().as_str()).concat(" to differing values");
    PolicyDiagnostic::new(
        DiagnosticCode::ConflictingBindingsAtLevel,
        DiagnosticSeverity::Error,
        message,
        "republish a single binding at this level for this field, or move the exception to a more specific level",
    ).with_field(field.deep_clone()).with_bindings(collect_ids(cs)).with_revisions(
        collect_references(cs),
    )
}

fn report_violation(
    floor: &Slot,
    chosen: &Candidate,
    field: &PolicyFieldId,
    level: TargetLevel,
) -> (r: PolicyDiagnostic)
    ensures
        forall|state: FieldStateModel, cs: Seq<CandidateModel>|
            #![trigger pin_violation_diagnostic(state, cs, field.deep_view(), level)]
            state.floor == Some(floor.deep_view()) && representative(cs) == chosen.deep_view()
                ==> r.deep_view() == pin_violation_diagnostic(
                state,
                cs,
                field.deep_view(),
                level,
            ),
{
    let message = field.debug_name().concat(" pinned at ").concat(
        level_text(&floor.provenance).as_str(),
    ).concat(" cannot be loosened at ").concat(level.debug_name().as_str());
    let mut ids: Vec<Uuid> = Vec::new();
    ids.push(chosen.binding_id);
    assert(ids.deep_view() =~= seq![chosen.binding_id]);
    let mut refs: Vec<PolicyRevisionRef> = Vec::new();
    let reference = chosen.reference.deep_clone();
    let ghost reference_view = reference.deep_view();
    refs.push(reference);
    assert(refs.deep_view() =~= seq![reference_view]);
    PolicyDiagnostic::new(
        DiagnosticCode::PinViolation,
        DiagnosticSeverity::Error,
        message,
        "remove the conflicting override, or tighten it to at least the pinned value",
    ).with_field(field.deep_clone()).with_bindings(ids).with_revisions(refs)
}

/// Looks at one field of one level.
fn settle(
    state: FieldState,
    bound: &Vec<&BoundRevision>,
    field: &PolicyFieldId,
    level: TargetLevel,
    diagnostics: &mut Vec<PolicyDiagnostic>,
    contributing: &mut Vec<PolicyRevisionRef>,
) -> (r: FieldState)
    ensures
        r.deep_view() == state_after(
            state.deep_view(),
            bound.deep_view(),
            field.deep_view(),
            level,
        ),
        final(diagnostics).deep_view() == old(diagnostics).deep_view() + step_notes(
            state.deep_view(),
            bound.deep_view(),
            field.deep_view(),
            level,
        ),
        final(contributing).deep_view() == step_contribution(
            old(contributing).deep_view(),
            state.deep_view(),
            bound.deep_view(),
            field.deep_view(),
        ),
{
    let ghost st = state.deep_view();
    let ghost f = field.deep_view();
    let ghost noted = diagnostics.deep_view();
    let cs = collect_candidates(bound, field);
    let ghost csv = cs.deep_view();
    assert(noted + Seq::<PolicyDiagnosticModel>::empty() =~= noted);
    if cs.len() == 0 {
        return state;
    }
    let merged = merge_candidates(&cs);
    let best = find_representative(&cs);
    assert(csv[best as int] == cs@[best as int].deep_view());
    let ghost conflict = if differing(csv) {
        seq![conflict_diagnostic(csv, f, level)]
    } else {
        Seq::empty()
    };
    if candidates_differ(&cs) {
        let d = report_conflict(&cs, field, level);
        let ghost before = *diagnostics;
        diagnostics.push(d);
        proof {
            lemma_deep_push(before, *diagnostics, d);
        }
    }
    assert(diagnostics.deep_view() =~= noted + conflict);
    let value = match &state.current {
        Some(slot) => if is_accumulate_field(field) {
            meet_field(&slot.value, &merged)
        } else {
            merged
        },
        None => merged,
    };
    assert(value.deep_view() == level_value(st, csv, f));
    let layer = FieldProvenance::Layer {
        level,
        binding_id: cs[best].binding_id,
        revision: cs[best].reference.deep_clone(),
    };
    let mut refused = false;
    let settled = match &state.floor {
        Some(floor) => if is_at_least_as_strict(&value, &floor.value) {
            Slot { value, provenance: layer }
        } else {
            let d = report_violation(floor, &cs[best], field, level);
            refused = true;
            let ghost before = *diagnostics;
            diagnostics.push(d);
            proof {
                lemma_deep_push(before, *diagnostics, d);
                assert(d.deep_view() == pin_violation_diagnostic(st, csv, f, level));
            }
            floor.deep_clone()
        },
        None => Slot { value, provenance: layer },
    };
    assert(settled.deep_view() == accepted(st, csv, f, level));
    assert(refused == loosens_pin(st, csv, f));
    assert(diagnostics.deep_view() =~= noted + step_notes(st, bound.deep_view(), f, level));
    if !refused && !vec_contains(contributing, &cs[best].reference) {
        let reference = cs[best].reference.deep_clone();
        let ghost before = *contributing;
        contributing.push(reference);
        proof {
            lemma_deep_push(before, *contributing, reference);
        }
    }
    match find_pin(bound, field, level) {
        Some(provenance) => {
            let floor = Slot {
                value: settled.value.deep_clone(),
                provenance: provenance.deep_clone(),
            };
            FieldState {
                current: Some(Slot { value: settled.value, provenance }),
                floor: Some(floor),
            }
        },
        None => FieldState { current: Some(settled), floor: state.floor },
    }
}

fn settle_level(
    states: Vec<FieldState>,
    chosen: &Vec<&BoundRevision>,
    l: usize,
    diagnostics: &mut Vec<PolicyDiagnostic>,
    contributing: &mut Vec<PolicyRevisionRef>,
) -> (r: Vec<FieldState>)
    requires
        l < 5,
        states.len() == 9,
        forall|f: int|
            0 <= f < 9 ==> (#[trigger] states@[f]).deep_view() == field_state(
                chosen.deep_view(),
                known_tag(f),
                l as int,
            ),
    ensures
        r.len() == 9,
        forall|f: int|
            0 <= f < 9 ==> (#[trigger] r@[f]).deep_view() == field_state(
                chosen.deep_view(),
                known_tag(f),
                l + 1,
            ),
        final(diagnostics).deep_view() == old(diagnostics).deep_view() + level_notes(
            chosen.deep_view(),
            l as int,
            9,
        ),
        final(contributing).deep_view() == level_contribution(
            old(contributing).deep_view(),
            chosen.deep_view(),
            l as int,
            9,
        ),
{
    let ghost all = chosen.deep_view();
    let ghost noted = diagnostics.deep_view();
    let ghost credited = contributing.deep_view();
    let level = nth_level(l);
    let bound = bindings_at(chosen, level);
    let mut out: Vec<FieldState> = Vec::new();
    let mut f: usize = 0;
    assert(noted + Seq::<PolicyDiagnosticModel>::empty() =~= noted);
    while f < 9
        invariant
            f <= 9,
            l < 5,
            all == chosen.deep_view(),
            level == level_at(l as int),
            bound.deep_view() == at_level(all, level),
            states.len() == 9,
            forall|k: int|
                0 <= k < 9 ==> (#[trigger] states@[k]).deep_view() == field_state(
                    all,
                    known_tag(k),
                    l as int,
                ),
            out.len() == f,
            forall|k: int|
                0 <= k < f ==> (#[trigger] out@[k]).deep_view() == field_state(
                    all,
                    known_tag(k),
                    l + 1,
                ),
            diagnostics.deep_view() == noted + level_notes(all, l as int, f as int),
            contributing.deep_view() == level_contribution(credited, all, l as int, f as int),
        decreases 9 - f,
    {
        let field = PolicyFieldId::at(f);
        let state = states[f].deep_clone();
        let next = settle(state, &bound, &field, level, diagnostics, contributing);
        proof {
            assert(field_state(all, known_tag(f as int), l + 1) == state_after(
                field_state(all, known_tag(f as int), l as int),
                at_level(all, level_at(l as int)),
                known_tag(f as int),
                level_at(l as int),
            ));
            assert(noted + level_notes(all, l as int, f as int) + step_notes(
                field_state(all, known_tag(f as int), l as int),
                at_level(all, level_at(l as int)),
                known_tag(f as int),
                level_at(l as int),
            ) =~= noted + level_notes(all, l as int, f + 1));
        }
        out.push(next);
        f = f + 1;
    }
    out
}

/// Resolves the bindings for a device. Never fails; see the module
/// documentation for the rules.
pub fn resolve(bound: &[BoundRevision], ctx: &DeviceContext) -> (r: (
    ResolvedPolicy,
    Vec<PolicyDiagnostic>,
))
    ensures
        r.0.deep_view() == resolution(deep_seq(bound@), ctx.deep_view()).0,
        r.1.deep_view() == resolution(deep_seq(bound@), ctx.deep_view()).1,
{
    let mut given: Vec<&BoundRevision> = Vec::new();
    let mut i: usize = 0;
    while i < bound.len()
        invariant
            i <= bound.len(),
            given.len() == i,
            forall|j: int| 0 <= j < i ==> *#[trigger] given@[j] == bound@[j],
        decreases bound.len() - i,
    {
        given.push(&bound[i]);
        i = i + 1;
    }
    assert(given.deep_view() =~= deep_seq(bound@));
    let ordered = stable_sort(given);
    let mut diagnostics: Vec<PolicyDiagnostic> = Vec::new();
    assert(diagnostics.deep_view() =~= Seq::<PolicyDiagnosticModel>::empty());
    let chosen = select(&ordered, ctx, &mut diagnostics);
    let ghost all = chosen.deep_view();
    let ghost notes = selection_notes(ordered.deep_view(), ctx.deep_view());
    assert(diagnostics.deep_view() =~= notes);
    let mut states: Vec<FieldState> = Vec::new();
    let mut k: usize = 0;
    while k < 9
        invariant
            k <= 9,
            states.len() == k,
            forall|f: int| 0 <= f < k ==> (#[trigger] states@[f]).deep_view() == no_state(),
        decreases 9 - k,
    {
        states.push(FieldState { current: None, floor: None });
        k = k + 1;
    }
    let mut contributing: Vec<PolicyRevisionRef> = Vec::new();
    assert(contributing.deep_view() =~= Seq::<PolicyRevisionRefModel>::empty());
    let mut l: usize = 0;
    assert(notes + Seq::<PolicyDiagnosticModel>::empty() =~= notes);
    while l < 5
        invariant
            l <= 5,
            all == chosen.deep_view(),
            states.len() == 9,
            forall|f: int|
                0 <= f < 9 ==> (#[trigger] states@[f]).deep_view() == field_state(
                    all,
                    known_tag(f),
                    l as int,
                ),
            diagnostics.deep_view() == notes + resolution_notes(all, l as int),
            contributing.deep_view() == contributions(all, l as int),
        decreases 5 - l,
    {
        states = settle_level(states, &chosen, l, &mut diagnostics, &mut contributing);
        assert(notes + resolution_notes(all, l as int) + level_notes(all, l as int, 9) =~= notes
            + resolution_notes(all, l + 1));
        l = l + 1;
    }
    let mut values = PolicyContent::baseline();
    let mut provenance: Vec<(PolicyFieldId, FieldProvenance)> = Vec::new();
    let mut f: usize = 0;
    while f < 9
        invariant
            f <= 9,
            states.len() == 9,
            forall|g: int|
                0 <= g < 9 ==> (#[trigger] states@[g]).deep_view() == field_state(
                    all,
                    known_tag(g),
                    5,
                ),
            values.deep_view() == resolved_values(all, f as int),
            provenance.len() == f,
            forall|g: int|
                0 <= g < f ==> (#[trigger] provenance@[g]).deep_view() == (
                    known_tag(g),
                    resolved_provenance(all, known_tag(g)),
                ),
        decreases 9 - f,
    {
        let field = PolicyFieldId::at(f);
        assert(states@[f as int].deep_view() == field_state(all, known_tag(f as int), 5));
        match &states[f].current {
            Some(slot) => {
                values = apply_field_to_resolved(values, &field, slot.value.deep_clone());
                provenance.push((field, slot.provenance.deep_clone()));
            },
            None => {
                provenance.push((field, FieldProvenance::Baseline));
            },
        }
        f = f + 1;
    }
    let resolved = ResolvedPolicy { values, provenance, contributing };
    assert(resolved.provenance.deep_view() =~= resolved_policy(all).provenance);
    if chosen.len() == 0 {
        proof {
            lemma_nothing_resolves(all, 5);
            assert(notes + Seq::<PolicyDiagnosticModel>::empty() =~= notes);
        }
        let ghost before = diagnostics;
        let d = info_no_applicable_policy();
        diagnostics.push(d);
        proof {
            lemma_deep_push(before, diagnostics, d);
        }
    } else {
        note_unsupported_requirements(
            &resolved.values.sensors_required_signals,
            &ctx.capabilities,
            &mut diagnostics,
        );
    }
    (resolved, diagnostics)
}

/// Without bindings no level reports, contributes or sets anything.
proof fn lemma_nothing_resolves(bound: Seq<BoundRevisionModel>, l: int)
    requires
        bound.len() == 0,
    ensures
        resolution_notes(bound, l) == Seq::<PolicyDiagnosticModel>::empty(),
        contributions(bound, l) == Seq::<PolicyRevisionRefModel>::empty(),
        forall|field: Tag| #[trigger] field_state(bound, field, l) == no_state(),
    decreases l,
{
    if l > 0 {
        lemma_nothing_resolves(bound, l - 1);
        lemma_no_level_notes(bound, l - 1, 9);
        lemma_no_level_contribution(contributions(bound, l - 1), bound, l - 1, 9);
        assert(at_level(bound, level_at(l - 1)).len() == 0);
        assert(resolution_notes(bound, l) =~= Seq::<PolicyDiagnosticModel>::empty());
        assert forall|field: Tag| #[trigger] field_state(bound, field, l) == no_state() by {
            assert(candidates(at_level(bound, level_at(l - 1)), field).len() == 0);
            assert(field_state(bound, field, l - 1) == no_state());
        }
    }
}

proof fn lemma_no_level_notes(bound: Seq<BoundRevisionModel>, l: int, f: int)
    requires
        bound.len() == 0,
    ensures
        level_notes(bound, l, f) == Seq::<PolicyDiagnosticModel>::empty(),
    decreases f,
{
    if f > 0 {
        lemma_no_level_notes(bound, l, f - 1);
        assert(at_level(bound, level_at(l)).len() == 0);
        assert(candidates(at_level(bound, level_at(l)), known_tag(f - 1)).len() == 0);
        assert(level_notes(bound, l, f) =~= Seq::<PolicyDiagnosticModel>::empty());
    }
}

proof fn lemma_no_level_contribution(
    refs: Seq<PolicyRevisionRefModel>,
    bound: Seq<BoundRevisionModel>,
    l: int,
    f: int,
)
    requires
        bound.len() == 0,
    ensures
        level_contribution(refs, bound, l, f) == refs,
    decreases f,
{
    if f > 0 {
        lemma_no_level_contribution(refs, bound, l, f - 1);
        assert(at_level(bound, level_at(l)).len() == 0);
        assert(candidates(at_level(bound, level_at(l)), known_tag(f - 1)).len() == 0);
    }
}

} // verus!

//! What pinning a field does to a resolution: which levels are refused, what
//! is reported of them, and who is credited.
use vstd::prelude::*;

use super::content::{EnforcementRule, EnforcementRuleModel};
use super::diagnostics::{DiagnosticCode, PolicyDiagnosticModel};
use super::field::{at_least_as_strict, field_of, FieldModel};
use super::laws::{
    has_shape, law_merged_rules_are_canonical_and_strict, law_pinning_binding_sets_floor,
    law_pins_are_never_loosened, lemma_candidate_shapes, lemma_candidates_nonempty,
};
use super::resolve::{
    applicable, at_level, candidates, conflict_diagnostic, contributions, differing, field_state,
    level_at, level_contribution, level_notes, level_value, loosens_pin, merged_value, pin_at,
    pin_violation_diagnostic, representative, requirement_notes, resolution, resolution_notes,
    resolved_values, selection_notes, step_notes, CandidateModel, FieldStateModel,
};
use super::revision::{
    duplicate_diagnostics, publication, repeats_class, rule_diagnostics, PolicyDraftModel,
    PolicyRevisionRefModel,
};
use super::strictness::{classes_differ, law_strictness_is_reflexive, lemma_sorted_rules_ascend};
use super::target::{
    binding_notes, BoundRevision, BoundRevisionModel, DeviceContextModel, TargetLevel,
};
use crate::capabilities::CapabilitySignalModel;
use crate::model::{known_tag, Tag};
use crate::order::{
    ascending, key_before, lemma_key_irreflexive, stably_sorted, tag_key, Sortable,
};

verus! {

/// What the bindings of the level at position `l` say about a field.
pub open spec fn said_at(bound: Seq<BoundRevisionModel>, field: Tag, l: int) -> Seq<
    CandidateModel,
> {
    candidates(at_level(bound, level_at(l)), field)
}

/// Whether the level at position `l` sets a field to a value looser than the
/// pin then in force.
pub open spec fn refused_at(bound: Seq<BoundRevisionModel>, field: Tag, l: int) -> bool {
    said_at(bound, field, l).len() > 0 && loosens_pin(
        field_state(bound, field, l),
        said_at(bound, field, l),
        field,
    )
}

/// One error for each of the first `n` levels that would loosen a pin.
pub open spec fn refusals(bound: Seq<BoundRevisionModel>, field: Tag, n: int) -> Seq<
    PolicyDiagnosticModel,
>
    decreases n,
{
    if n <= 0 {
        Seq::empty()
    } else if refused_at(bound, field, n - 1) {
        refusals(bound, field, n - 1).push(
            pin_violation_diagnostic(
                field_state(bound, field, n - 1),
                said_at(bound, field, n - 1),
                field,
                level_at(n - 1),
            ),
        )
    } else {
        refusals(bound, field, n - 1)
    }
}

/// The pin violations that are reported of a field, in order.
pub open spec fn pin_violations(notes: Seq<PolicyDiagnosticModel>, field: Tag) -> Seq<
    PolicyDiagnosticModel,
>
    decreases notes.len(),
{
    if notes.len() == 0 {
        Seq::empty()
    } else if notes.last().code == DiagnosticCode::PinViolation && notes.last().field == Some(
        field,
    ) {
        pin_violations(notes.drop_last(), field).push(notes.last())
    } else {
        pin_violations(notes.drop_last(), field)
    }
}

proof fn lemma_violations_of_both(
    a: Seq<PolicyDiagnosticModel>,
    b: Seq<PolicyDiagnosticModel>,
    field: Tag,
)
    ensures
        pin_violations(a + b, field) == pin_violations(a, field) + pin_violations(b, field),
    decreases b.len(),
{
    if b.len() == 0 {
        assert(a + b =~= a);
        assert(pin_violations(a, field) + pin_violations(b, field) =~= pin_violations(a, field));
    } else {
        lemma_violations_of_both(a, b.drop_last(), field);
        assert((a + b).drop_last() =~= a + b.drop_last());
        assert((a + b).last() == b.last());
        assert(pin_violations(a + b, field) =~= pin_violations(a, field) + pin_violations(
            b,
            field,
        ));
    }
}

proof fn lemma_violation_of_one(d: PolicyDiagnosticModel, field: Tag)
    ensures
        pin_violations(seq![d], field) == (if d.code == DiagnosticCode::PinViolation && d.field
            == Some(field) {
            seq![d]
        } else {
            Seq::empty()
        }),
{
    let notes = seq![d];
    assert(notes.drop_last() =~= Seq::<PolicyDiagnosticModel>::empty());
    assert(pin_violations(notes.drop_last(), field) =~= Seq::<PolicyDiagnosticModel>::empty());
    assert(Seq::<PolicyDiagnosticModel>::empty().push(d) =~= seq![d]);
}

proof fn lemma_selection_has_no_violations(
    bound: Seq<BoundRevisionModel>,
    ctx: DeviceContextModel,
    field: Tag,
)
    ensures
        pin_violations(selection_notes(bound, ctx), field).len() == 0,
    decreases bound.len(),
{
    if bound.len() > 0 {
        lemma_selection_has_no_violations(bound.drop_last(), ctx, field);
        let notes = binding_notes(bound.last().binding, ctx);
        lemma_violations_of_both(selection_notes(bound.drop_last(), ctx), notes, field);
        assert(notes.len() <= 1);
        if notes.len() == 1 {
            assert(notes =~= seq![notes[0]]);
            lemma_violation_of_one(notes[0], field);
        }
    }
}

proof fn lemma_requirements_have_no_violations(
    required: Seq<Tag>,
    declared: Seq<CapabilitySignalModel>,
    field: Tag,
)
    ensures
        pin_violations(requirement_notes(required, declared), field).len() == 0,
    decreases required.len(),
{
    if required.len() > 0 {
        let front = requirement_notes(required.drop_last(), declared);
        lemma_requirements_have_no_violations(required.drop_last(), declared, field);
        let notes = requirement_notes(required, declared);
        if notes != front {
            assert(notes.drop_last() =~= front);
        }
    }
}

/// What a level reports of another field holds no violation of this one, and
/// what it reports of this one holds at most the one.
proof fn lemma_step_violations(
    state: FieldStateModel,
    bound: Seq<BoundRevisionModel>,
    looked_at: Tag,
    level: TargetLevel,
    field: Tag,
)
    ensures
        pin_violations(step_notes(state, bound, looked_at, level), field) == (if looked_at == field
            && candidates(bound, field).len() > 0 && loosens_pin(
            state,
            candidates(bound, field),
            field,
        ) {
            seq![pin_violation_diagnostic(state, candidates(bound, field), field, level)]
        } else {
            Seq::empty()
        }),
{
    let cs = candidates(bound, looked_at);
    let none = Seq::<PolicyDiagnosticModel>::empty();
    assert(pin_violations(none, field) =~= none);
    if cs.len() > 0 {
        let conflict = if differing(cs) {
            seq![conflict_diagnostic(cs, looked_at, level)]
        } else {
            none
        };
        let violation = if loosens_pin(state, cs, looked_at) {
            seq![pin_violation_diagnostic(state, cs, looked_at, level)]
        } else {
            none
        };
        assert(step_notes(state, bound, looked_at, level) == conflict + violation);
        lemma_violations_of_both(conflict, violation, field);
        lemma_violation_of_one(conflict_diagnostic(cs, looked_at, level), field);
        lemma_violation_of_one(pin_violation_diagnostic(state, cs, looked_at, level), field);
        assert(pin_violations(conflict, field) =~= none);
        assert(none + pin_violations(violation, field) =~= pin_violations(violation, field));
    }
}

proof fn lemma_level_violations(bound: Seq<BoundRevisionModel>, l: int, f: int, field: int)
    requires
        0 <= f <= 9,
        0 <= field < 9,
    ensures
        pin_violations(level_notes(bound, l, f), known_tag(field)) == (if field < f && refused_at(
            bound,
            known_tag(field),
            l,
        ) {
            seq![
                pin_violation_diagnostic(
                    field_state(bound, known_tag(field), l),
                    said_at(bound, known_tag(field), l),
                    known_tag(field),
                    level_at(l),
                ),
            ]
        } else {
            Seq::empty()
        }),
    decreases f,
{
    let tag = known_tag(field);
    let none = Seq::<PolicyDiagnosticModel>::empty();
    if f > 0 {
        let looked_at = known_tag(f - 1);
        let state = field_state(bound, looked_at, l);
        let bs = at_level(bound, level_at(l));
        let step = step_notes(state, bs, looked_at, level_at(l));
        lemma_level_violations(bound, l, f - 1, field);
        lemma_violations_of_both(level_notes(bound, l, f - 1), step, tag);
        lemma_step_violations(state, bs, looked_at, level_at(l), tag);
        assert((looked_at == tag) == (field == f - 1));
        let front = pin_violations(level_notes(bound, l, f - 1), tag);
        let last = pin_violations(step, tag);
        assert(front + none =~= front);
        assert(none + last =~= last);
    } else {
        assert(pin_violations(level_notes(bound, l, f), tag) =~= none);
    }
}

proof fn lemma_resolution_violations(bound: Seq<BoundRevisionModel>, n: int, field: int)
    requires
        0 <= field < 9,
    ensures
        pin_violations(resolution_notes(bound, n), known_tag(field)) == refusals(
            bound,
            known_tag(field),
            n,
        ),
    decreases n,
{
    let tag = known_tag(field);
    if n > 0 {
        lemma_resolution_violations(bound, n - 1, field);
        lemma_violations_of_both(
            resolution_notes(bound, n - 1),
            level_notes(bound, n - 1, 9),
            tag,
        );
        lemma_level_violations(bound, n - 1, 9, field);
        assert(refusals(bound, tag, n) =~= pin_violations(resolution_notes(bound, n - 1), tag)
            + pin_violations(level_notes(bound, n - 1, 9), tag));
    } else {
        assert(pin_violations(resolution_notes(bound, n), tag) =~= refusals(bound, tag, n));
    }
}

/// Of each field exactly the levels are reported that would loosen the pin
/// then in force: one error for each, in order, and no other pin violation.
pub proof fn law_each_refused_level_is_reported_once(
    bound: Seq<BoundRevisionModel>,
    ctx: DeviceContextModel,
    field: int,
)
    requires
        0 <= field < 9,
    ensures
        pin_violations(resolution(bound, ctx).1, known_tag(field)) == refusals(
            applicable(stably_sorted::<&BoundRevision>(bound), ctx),
            known_tag(field),
            5,
        ),
{
    let ordered = stably_sorted::<&BoundRevision>(bound);
    let chosen = applicable(ordered, ctx);
    let tag = known_tag(field);
    let notes = selection_notes(ordered, ctx);
    let none = Seq::<PolicyDiagnosticModel>::empty();
    lemma_selection_has_no_violations(ordered, ctx, tag);
    assert(pin_violations(notes, tag) =~= none);
    if chosen.len() == 0 {
        lemma_nothing_refused(chosen, tag, 5);
        let all = resolution(bound, ctx).1;
        assert(all.drop_last() =~= notes);
        assert(refusals(chosen, tag, 5) =~= none);
    } else {
        let resolved = resolution_notes(chosen, 5);
        let required = requirement_notes(
            resolved_values(chosen, 9).sensors_required_signals,
            ctx.capabilities.signals,
        );
        lemma_resolution_violations(chosen, 5, field);
        lemma_requirements_have_no_violations(
            resolved_values(chosen, 9).sensors_required_signals,
            ctx.capabilities.signals,
            tag,
        );
        lemma_violations_of_both(notes + resolved, required, tag);
        lemma_violations_of_both(notes, resolved, tag);
        assert(pin_violations(required, tag) =~= none);
        assert(none + pin_violations(resolved, tag) + none =~= pin_violations(resolved, tag));
    }
}

proof fn lemma_nothing_refused(bound: Seq<BoundRevisionModel>, field: Tag, n: int)
    requires
        bound.len() == 0,
    ensures
        refusals(bound, field, n).len() == 0,
    decreases n,
{
    if n > 0 {
        lemma_nothing_refused(bound, field, n - 1);
        assert(at_level(bound, level_at(n - 1)).len() == 0);
        assert(said_at(bound, field, n - 1).len() == 0);
    }
}

/// A refused level leaves a field at the value of the pin, and a field that
/// is not pinned is never refused anything.
pub proof fn law_refused_levels_keep_the_pinned_value(
    bound: Seq<BoundRevisionModel>,
    field: Tag,
    l: int,
)
    requires
        0 <= l < 5,
    ensures
        refused_at(bound, field, l) ==> (field_state(bound, field, l).floor matches Some(floor) && (
        field_state(bound, field, l + 1).current matches Some(slot) && slot.value == floor.value)),
        field_state(bound, field, l).floor is None ==> !refused_at(bound, field, l),
{
}

/// Whether the rules of each revision are for different action classes.
pub open spec fn rules_differ(bound: Seq<BoundRevisionModel>) -> bool {
    forall|i: int|
        0 <= i < bound.len() ==> ((#[trigger] bound[i]).revision.body.content.enforcement.rules
            matches Some(rules) ==> classes_differ(rules))
}

proof fn lemma_rules_differ_at_level(bound: Seq<BoundRevisionModel>, level: TargetLevel)
    requires
        rules_differ(bound),
    ensures
        rules_differ(at_level(bound, level)),
    decreases bound.len(),
{
    if bound.len() > 0 {
        let front = bound.drop_last();
        assert forall|i: int| 0 <= i < front.len() implies ((
        #[trigger] front[i]).revision.body.content.enforcement.rules matches Some(rules)
            ==> classes_differ(rules)) by {
            assert(front[i] == bound[i]);
        }
        lemma_rules_differ_at_level(front, level);
        let all = at_level(bound, level);
        let last = bound[bound.len() - 1];
        assert forall|i: int| 0 <= i < all.len() implies ((
        #[trigger] all[i]).revision.body.content.enforcement.rules matches Some(rules)
            ==> classes_differ(rules)) by {
            if i < at_level(front, level).len() {
                assert(all[i] == at_level(front, level)[i]);
            } else {
                assert(all[i] == last);
            }
        }
    }
}

/// Whether the rules of a value ascend, if it has any.
spec fn orderly(v: FieldModel) -> bool {
    v matches FieldModel::EnforcementRules(rules) ==> ascending::<EnforcementRule>(rules)
}

proof fn lemma_candidates_orderly(bs: Seq<BoundRevisionModel>, field: Tag)
    requires
        rules_differ(bs),
    ensures
        forall|i: int|
            0 <= i < candidates(bs, field).len() ==> orderly(
                (#[trigger] candidates(bs, field)[i]).value,
            ),
    decreases bs.len(),
{
    if bs.len() > 0 {
        let front = bs.drop_last();
        assert forall|i: int| 0 <= i < front.len() implies ((
        #[trigger] front[i]).revision.body.content.enforcement.rules matches Some(rules)
            ==> classes_differ(rules)) by {
            assert(front[i] == bs[i]);
        }
        lemma_candidates_orderly(front, field);
        let last = bs[bs.len() - 1];
        match last.revision.body.content.enforcement.rules {
            Some(rules) => {
                lemma_sorted_rules_ascend(rules);
            },
            None => {},
        }
    }
}

proof fn lemma_merged_orderly(cs: Seq<CandidateModel>, field: Tag)
    requires
        cs.len() > 0,
        forall|i: int|
            0 <= i < cs.len() ==> orderly((#[trigger] cs[i]).value) && has_shape(
                field,
                cs[i].value,
            ),
    ensures
        orderly(merged_value(cs)),
    decreases cs.len(),
{
    if cs.len() > 1 {
        let front = cs.drop_last();
        assert forall|i: int| 0 <= i < front.len() implies orderly((#[trigger] front[i]).value)
            && has_shape(field, front[i].value) by {
            assert(front[i] == cs[i]);
        }
        lemma_merged_orderly(front, field);
        match (merged_value(front), cs[cs.len() - 1].value) {
            (FieldModel::EnforcementRules(x), FieldModel::EnforcementRules(y)) => {
                law_merged_rules_are_canonical_and_strict(x + y);
            },
            _ => {},
        }
    } else {
        assert(cs[0].value == merged_value(cs));
    }
}

spec fn state_orderly(state: FieldStateModel) -> bool {
    &&& state.current matches Some(slot) ==> orderly(slot.value)
    &&& state.floor matches Some(slot) ==> orderly(slot.value)
}

proof fn lemma_said_orderly(bound: Seq<BoundRevisionModel>, field: Tag, l: int)
    requires
        rules_differ(bound),
        said_at(bound, field, l).len() > 0,
        state_orderly(field_state(bound, field, l)),
    ensures
        orderly(level_value(field_state(bound, field, l), said_at(bound, field, l), field)),
{
    let bs = at_level(bound, level_at(l));
    let cs = said_at(bound, field, l);
    lemma_rules_differ_at_level(bound, level_at(l));
    lemma_candidates_orderly(bs, field);
    lemma_candidate_shapes(bs, field);
    lemma_merged_orderly(cs, field);
    match field_state(bound, field, l).current {
        Some(slot) => match (slot.value, merged_value(cs)) {
            (FieldModel::EnforcementRules(x), FieldModel::EnforcementRules(y)) => {
                law_merged_rules_are_canonical_and_strict(x + y);
            },
            _ => {},
        },
        None => {},
    }
}

proof fn lemma_states_orderly(bound: Seq<BoundRevisionModel>, field: Tag, n: int)
    requires
        rules_differ(bound),
    ensures
        state_orderly(field_state(bound, field, n)),
    decreases n,
{
    if n > 0 {
        lemma_states_orderly(bound, field, n - 1);
        if said_at(bound, field, n - 1).len() > 0 {
            lemma_said_orderly(bound, field, n - 1);
        }
    }
}

proof fn lemma_no_pin_no_floor(bound: Seq<BoundRevisionModel>, field: Tag, n: int)
    requires
        forall|k: int|
            0 <= k < n ==> pin_at(at_level(bound, #[trigger] level_at(k)), field, level_at(k)) is None,
    ensures
        field_state(bound, field, n).floor is None,
    decreases n,
{
    if n > 0 {
        lemma_no_pin_no_floor(bound, field, n - 1);
        assert(pin_at(at_level(bound, level_at(n - 1)), field, level_at(n - 1)) is None);
    }
}

/// Where a level pins a field and sets it, and no more general level pins it,
/// the value resolved for the field is at least as strict as what was said
/// up to that level: later levels only tighten it.
pub proof fn law_pinned_fields_only_tighten(
    bound: Seq<BoundRevisionModel>,
    field: Tag,
    l: int,
    i: int,
)
    requires
        0 <= l < 5,
        0 <= i < at_level(bound, level_at(l)).len(),
        at_level(bound, level_at(l))[i].revision.body.pinned_fields.contains(field),
        field_of(at_level(bound, level_at(l))[i].revision.body.content, field) is Some,
        forall|k: int|
            0 <= k < l ==> pin_at(at_level(bound, #[trigger] level_at(k)), field, level_at(k)) is None,
        rules_differ(bound),
    ensures
        field_state(bound, field, 5).current matches Some(slot) && at_least_as_strict(
            slot.value,
            level_value(field_state(bound, field, l), said_at(bound, field, l), field),
        ),
{
    let v = level_value(field_state(bound, field, l), said_at(bound, field, l), field);
    lemma_no_pin_no_floor(bound, field, l);
    law_pinning_binding_sets_floor(bound, field, l, i);
    lemma_candidates_nonempty(at_level(bound, level_at(l)), field, i);
    lemma_states_orderly(bound, field, l);
    lemma_said_orderly(bound, field, l);
    assert(field_state(bound, field, l + 1).floor.unwrap().value == v);
    law_pins_are_never_loosened(bound, field, l + 1);
    match v {
        FieldModel::EnforcementRules(_) => {
            law_strictness_is_reflexive(v);
        },
        _ => {},
    }
}

/// A revision is published only with rules for different action classes.
pub proof fn law_published_rules_differ(draft: PolicyDraftModel, published_at: Seq<char>)
    ensures
        publication(draft, published_at) matches Ok(revision) ==> (
        revision.body.content.enforcement.rules matches Some(rules) ==> classes_differ(rules)),
{
    if publication(draft, published_at) is Ok {
        match draft.content.enforcement.rules {
            Some(rules) => {
                assert(rule_diagnostics(Some(rules)).len() == 0);
                assert(duplicate_diagnostics(rules, rules.len() as int).len() == 0);
                lemma_no_duplicates(rules, rules.len() as int);
                lemma_sorted_rules_ascend(rules);
                let sorted = stably_sorted::<EnforcementRule>(rules);
                assert forall|i: int, j: int|
                    #![trigger sorted[i], sorted[j]]
                    0 <= i < j < sorted.len() implies sorted[i].action_class
                    != sorted[j].action_class by {
                    lemma_key_irreflexive(tag_key(sorted[i].action_class));
                    assert(key_before(
                        EnforcementRule::sort_key(sorted[i]),
                        EnforcementRule::sort_key(sorted[j]),
                    ));
                }
            },
            None => {},
        }
    }
}

proof fn lemma_no_duplicates(rules: Seq<EnforcementRuleModel>, n: int)
    requires
        0 <= n <= rules.len(),
        duplicate_diagnostics(rules, n).len() == 0,
    ensures
        forall|i: int, j: int|
            #![trigger rules[i], rules[j]]
            0 <= i < j < n ==> rules[i].action_class != rules[j].action_class,
    decreases n,
{
    if n > 0 {
        assert(!repeats_class(rules, n - 1));
        lemma_no_duplicates(rules, n - 1);
    }
}

/// Whether a revision is the one that the value of a field at a level is
/// attributed to, and no pin refused that value.
pub open spec fn credited(
    bound: Seq<BoundRevisionModel>,
    l: int,
    f: int,
    r: PolicyRevisionRefModel,
) -> bool {
    &&& said_at(bound, known_tag(f), l).len() > 0
    &&& !refused_at(bound, known_tag(f), l)
    &&& r == representative(said_at(bound, known_tag(f), l)).reference
}

proof fn lemma_level_credits(
    refs: Seq<PolicyRevisionRefModel>,
    bound: Seq<BoundRevisionModel>,
    l: int,
    n: int,
    r: PolicyRevisionRefModel,
)
    requires
        0 <= n,
        refs.no_duplicates(),
    ensures
        level_contribution(refs, bound, l, n).no_duplicates(),
        level_contribution(refs, bound, l, n).contains(r) == (refs.contains(r) || exists|f: int|
            0 <= f < n && #[trigger] credited(bound, l, f, r)),
    decreases n,
{
    if n > 0 {
        lemma_level_credits(refs, bound, l, n - 1, r);
        let before = level_contribution(refs, bound, l, n - 1);
        let after = level_contribution(refs, bound, l, n);
        let cs = said_at(bound, known_tag(n - 1), l);
        let named = representative(cs).reference;
        if cs.len() > 0 && !refused_at(bound, known_tag(n - 1), l) && !before.contains(named) {
            assert(after == before.push(named));
            assert(after[before.len() as int] == named);
            if before.contains(r) {
                let k = choose|k: int| 0 <= k < before.len() && before[k] == r;
                assert(after[k] == r);
            }
        } else {
            assert(after == before);
        }
        if r == named {
            assert(credited(bound, l, n - 1, r) == (cs.len() > 0 && !refused_at(
                bound,
                known_tag(n - 1),
                l,
            )));
        }
        if after.contains(r) && !refs.contains(r) {
            if before.contains(r) {
                let f = choose|f: int| 0 <= f < n - 1 && #[trigger] credited(bound, l, f, r);
                assert(credited(bound, l, f, r));
            } else {
                assert(credited(bound, l, n - 1, r));
            }
        }
        if exists|f: int| 0 <= f < n && #[trigger] credited(bound, l, f, r) {
            let f = choose|f: int| 0 <= f < n && #[trigger] credited(bound, l, f, r);
            if f == n - 1 {
                assert(r == named);
            } else {
                assert(before.contains(r));
            }
        }
    }
}

proof fn lemma_credits(bound: Seq<BoundRevisionModel>, n: int, r: PolicyRevisionRefModel)
    requires
        0 <= n,
    ensures
        contributions(bound, n).no_duplicates(),
        contributions(bound, n).contains(r) == exists|l: int, f: int|
            0 <= l < n && 0 <= f < 9 && #[trigger] credited(bound, l, f, r),
    decreases n,
{
    if n > 0 {
        lemma_credits(bound, n - 1, r);
        let before = contributions(bound, n - 1);
        let after = contributions(bound, n);
        lemma_level_credits(before, bound, n - 1, 9, r);
        if after.contains(r) {
            if before.contains(r) {
                let (l, f) = choose|l: int, f: int|
                    0 <= l < n - 1 && 0 <= f < 9 && #[trigger] credited(bound, l, f, r);
                assert(credited(bound, l, f, r));
            } else {
                let f = choose|f: int| 0 <= f < 9 && #[trigger] credited(bound, n - 1, f, r);
                assert(credited(bound, n - 1, f, r));
            }
        }
    }
}

/// A revision is listed as contributing, once, exactly if the value of some
/// field at some level is attributed to it and no pin refused that value.
pub proof fn law_contributing_revisions_set_a_value(
    bound: Seq<BoundRevisionModel>,
    ctx: DeviceContextModel,
    r: PolicyRevisionRefModel,
)
    ensures
        resolution(bound, ctx).0.contributing.no_duplicates(),
        resolution(bound, ctx).0.contributing.contains(r) == exists|l: int, f: int|
            0 <= l < 5 && 0 <= f < 9 && #[trigger] credited(
                applicable(stably_sorted::<&BoundRevision>(bound), ctx),
                l,
                f,
                r,
            ),
{
    lemma_credits(applicable(stably_sorted::<&BoundRevision>(bound), ctx), 5, r);
}

} // verus!

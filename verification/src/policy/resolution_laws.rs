//! What resolution makes of what the bindings say, field by field.
use vstd::prelude::*;

use super::content::{
    first_rule, EnforcementOutcome, EnforcementRule, EnforcementRuleModel, PolicyContentModel,
    RedactionProfile, RiskClass, RiskClassSeconds,
};
use super::diagnostics::{DiagnosticCode, PolicyDiagnosticModel};
use super::field::{at_least_as_strict, combined_rule, field_met, field_of, FieldModel};
use super::laws::{
    has_shape, lemma_candidate_shapes, lemma_first_rule_member, lemma_normalized_members,
    lemma_same_members,
};
use super::pins::{law_pinned_fields_only_tighten, rules_differ, said_at};
use super::resolve::{
    applicable, at_level, candidates, field_state, level_at, level_notes, level_value, loosens_pin,
    merged_value, no_applicable_policy_diagnostic, pin_at, representative, requirement_notes,
    resolution, resolution_notes, resolved_values, selection_notes, state_after, step_notes,
    CandidateModel, FieldProvenanceModel, FieldStateModel, SlotModel,
};
use super::revision::revision_reference;
use super::strictness::{
    classes_differ, lemma_merged_of_ascending, lemma_sorted_rules_ascend,
};
use super::target::{
    binding_notes, BoundRevision, BoundRevisionModel, DeviceContextModel, TargetLevel,
    TargetScopeModel,
};
use super::targeting_laws::{
    belongs, family_wanted, law_bindings_apply_to_the_devices_they_name, provider_wanted,
    signals_wanted,
};
use crate::capabilities::{declared_state, CapabilitySignalModel};
use crate::model::{known_tag, Tag};
use crate::order::{ascending, law_stable_sort_is_sorted_permutation, stably_sorted, Sortable};

verus! {

/// Whether a binding is for a device.
pub open spec fn heard(b: BoundRevisionModel, ctx: DeviceContextModel) -> bool {
    belongs(ctx, b.binding.scope) && provider_wanted(ctx, b.binding) && family_wanted(
        ctx,
        b.binding,
    ) && signals_wanted(ctx, b.binding)
}

/// How specific a binding is: from an organisation's, over a team's, a
/// project's and a device's, to a local user's.
pub open spec fn specificity(b: BoundRevisionModel) -> int {
    match b.binding.scope {
        TargetScopeModel::Org { .. } => 0,
        TargetScopeModel::Team { .. } => 1,
        TargetScopeModel::Project { .. } => 2,
        TargetScopeModel::Device { .. } => 3,
        TargetScopeModel::LocalUser => 4,
    }
}

/// What a binding says about a field, as read off its content.
pub open spec fn saying(b: BoundRevisionModel, field: int) -> Option<FieldModel> {
    field_of(b.revision.body.content, known_tag(field))
}

/// Whether a binding pins a field.
pub open spec fn pins(b: BoundRevisionModel, field: int) -> bool {
    b.revision.body.pinned_fields.contains(known_tag(field))
}

/// Whether a content sets a field.
pub open spec fn sets(content: PolicyContentModel, field: int) -> bool {
    if field == 0 {
        content.collection.longitudinal_aggregation_allowed is Some
    } else if field == 1 {
        content.egress.cloud_sync_allowed is Some
    } else if field == 2 {
        content.egress.redaction_profile is Some
    } else if field == 3 {
        content.egress.allowed_content is Some
    } else if field == 4 {
        content.sensors.disabled is Some
    } else if field == 5 {
        content.sensors.required_signals is Some
    } else if field == 6 {
        content.enforcement.rules is Some
    } else if field == 7 {
        content.cache.max_age_seconds_by_risk is Some
    } else {
        content.cache.offline_grace_seconds is Some
    }
}

/// Whether the binding at `i` is for the device and sets a field.
pub open spec fn speaks(
    bound: Seq<BoundRevisionModel>,
    ctx: DeviceContextModel,
    field: int,
    i: int,
) -> bool {
    0 <= i < bound.len() && heard(bound[i], ctx) && sets(bound[i].revision.body.content, field)
}

/// Whether the binding at `i` is among the most specific ones that are for the
/// device and set a field.
pub open spec fn leads(
    bound: Seq<BoundRevisionModel>,
    ctx: DeviceContextModel,
    field: int,
    i: int,
) -> bool {
    speaks(bound, ctx, field, i) && forall|j: int| #[trigger]
        speaks(bound, ctx, field, j) ==> specificity(bound[j]) <= specificity(bound[i])
}

/// Whether some binding for the device, as specific as the one at `i`, pins a
/// field.
pub open spec fn pinned_beside(
    bound: Seq<BoundRevisionModel>,
    ctx: DeviceContextModel,
    field: int,
    i: int,
) -> bool {
    exists|p: int| #[trigger] pinning(bound, ctx, field, p) && specificity(bound[p]) == specificity(
        bound[i],
    )
}

/// Whether the binding at `p` is for the device and pins a field.
pub open spec fn pinning(
    bound: Seq<BoundRevisionModel>,
    ctx: DeviceContextModel,
    field: int,
    p: int,
) -> bool {
    0 <= p < bound.len() && heard(bound[p], ctx) && pins(bound[p], field)
}

/// Whether nothing that is for the device pins a field.
pub open spec fn unpinned(
    bound: Seq<BoundRevisionModel>,
    ctx: DeviceContextModel,
    field: int,
) -> bool {
    forall|p: int| !#[trigger] pinning(bound, ctx, field, p)
}

/// Whether what the binding at `j` says about a field counts: it is among the
/// most specific ones, or its level pins the field.
pub open spec fn counts(
    bound: Seq<BoundRevisionModel>,
    ctx: DeviceContextModel,
    field: int,
    j: int,
) -> bool {
    leads(bound, ctx, field, j) || (speaks(bound, ctx, field, j) && pinned_beside(
        bound,
        ctx,
        field,
        j,
    ))
}

/// The bindings that resolution goes through, in its order.
pub open spec fn chosen(bound: Seq<BoundRevisionModel>, ctx: DeviceContextModel) -> Seq<
    BoundRevisionModel,
> {
    applicable(stably_sorted::<&BoundRevision>(bound), ctx)
}

proof fn lemma_level_of(b: BoundRevisionModel, l: int)
    requires
        0 <= l < 5,
    ensures
        (super::target::scope_level(b.binding.scope) == level_at(l)) == (specificity(b) == l),
{
}

proof fn lemma_applicable_members(
    bound: Seq<BoundRevisionModel>,
    ctx: DeviceContextModel,
    b: BoundRevisionModel,
)
    ensures
        applicable(bound, ctx).contains(b) == (bound.contains(b) && heard(b, ctx)),
    decreases bound.len(),
{
    law_bindings_apply_to_the_devices_they_name(b.binding, ctx);
    if bound.len() > 0 {
        let front = bound.drop_last();
        let last = bound.last();
        law_bindings_apply_to_the_devices_they_name(last.binding, ctx);
        lemma_applicable_members(front, ctx, b);
        assert(bound =~= front.push(last));
        lemma_push_contains(front, last, b);
        lemma_push_contains(applicable(front, ctx), last, b);
    }
}

proof fn lemma_push_contains<T>(s: Seq<T>, x: T, y: T)
    ensures
        s.push(x).contains(y) == (s.contains(y) || x == y),
{
    let t = s.push(x);
    if s.contains(y) {
        let i = choose|i: int| 0 <= i < s.len() && s[i] == y;
        assert(t[i] == y);
    }
    assert(t[s.len() as int] == x);
    if t.contains(y) {
        let i = choose|i: int| 0 <= i < t.len() && t[i] == y;
        if i < s.len() {
            assert(s[i] == y);
        }
    }
}

proof fn lemma_chosen_members(
    bound: Seq<BoundRevisionModel>,
    ctx: DeviceContextModel,
    b: BoundRevisionModel,
)
    ensures
        chosen(bound, ctx).contains(b) == (bound.contains(b) && heard(b, ctx)),
{
    let sorted = stably_sorted::<&BoundRevision>(bound);
    law_stable_sort_is_sorted_permutation::<&BoundRevision>(bound);
    lemma_same_members(sorted, bound);
    lemma_applicable_members(sorted, ctx, b);
}

proof fn lemma_at_level_members(
    bs: Seq<BoundRevisionModel>,
    l: int,
    b: BoundRevisionModel,
)
    requires
        0 <= l < 5,
    ensures
        at_level(bs, level_at(l)).contains(b) == (bs.contains(b) && specificity(b) == l),
    decreases bs.len(),
{
    lemma_level_of(b, l);
    if bs.len() > 0 {
        let front = bs.drop_last();
        let last = bs.last();
        lemma_level_of(last, l);
        lemma_at_level_members(front, l, b);
        assert(bs =~= front.push(last));
        lemma_push_contains(front, last, b);
        lemma_push_contains(at_level(front, level_at(l)), last, b);
    }
}

/// Every candidate comes from a binding, and every binding that sets the field
/// has one.
proof fn lemma_candidates_members(bs: Seq<BoundRevisionModel>, field: Tag)
    ensures
        forall|i: int|
            0 <= i < candidates(bs, field).len() ==> #[trigger] sourced(
                candidates(bs, field),
                i,
                bs,
                field,
            ),
        forall|k: int|
            0 <= k < bs.len() && field_of((#[trigger] bs[k]).revision.body.content, field) is Some
                ==> exists|i: int| #[trigger] comes_from(candidates(bs, field), i, bs, k, field),
    decreases bs.len(),
{
    let cs = candidates(bs, field);
    if bs.len() > 0 {
        let front = bs.drop_last();
        let fcs = candidates(front, field);
        lemma_candidates_members(front, field);
        let n = bs.len() - 1;
        assert forall|i: int| 0 <= i < cs.len() implies #[trigger] sourced(cs, i, bs, field) by {
            if i < fcs.len() {
                assert(sourced(fcs, i, front, field));
                let k = choose|k: int| #[trigger] comes_from(fcs, i, front, k, field);
                assert(bs[k] == front[k] && cs[i] == fcs[i]);
                assert(comes_from(cs, i, bs, k, field));
            } else {
                assert(comes_from(cs, i, bs, n, field));
            }
        }
        assert forall|k: int|
            0 <= k < bs.len() && field_of(
                (#[trigger] bs[k]).revision.body.content,
                field,
            ) is Some implies exists|i: int| #[trigger] comes_from(cs, i, bs, k, field) by {
            if k < n {
                assert(front[k] == bs[k]);
                let i = choose|i: int| #[trigger] comes_from(fcs, i, front, k, field);
                assert(cs[i] == fcs[i]);
                assert(comes_from(cs, i, bs, k, field));
            } else {
                assert(comes_from(cs, cs.len() - 1, bs, k, field));
            }
        }
    }
}

spec fn sourced(
    cs: Seq<CandidateModel>,
    i: int,
    bs: Seq<BoundRevisionModel>,
    field: Tag,
) -> bool {
    exists|k: int| #[trigger] comes_from(cs, i, bs, k, field)
}

spec fn comes_from(
    cs: Seq<CandidateModel>,
    i: int,
    bs: Seq<BoundRevisionModel>,
    k: int,
    field: Tag,
) -> bool {
    &&& 0 <= i < cs.len()
    &&& 0 <= k < bs.len()
    &&& field_of(bs[k].revision.body.content, field) == Some(cs[i].value)
    &&& cs[i].binding_id == bs[k].binding.binding_id
    &&& cs[i].reference == revision_reference(bs[k].revision)
}

/// Whether the candidate at `c` of a level is what the binding at `j` says.
spec fn voices(
    bound: Seq<BoundRevisionModel>,
    ctx: DeviceContextModel,
    field: int,
    l: int,
    c: int,
    j: int,
) -> bool {
    let cs = said_at(chosen(bound, ctx), known_tag(field), l);
    &&& 0 <= c < cs.len()
    &&& speaks(bound, ctx, field, j)
    &&& specificity(bound[j]) == l
    &&& saying(bound[j], field) == Some(cs[c].value)
    &&& cs[c].binding_id == bound[j].binding.binding_id
    &&& cs[c].reference == revision_reference(bound[j].revision)
}

spec fn voiced(
    bound: Seq<BoundRevisionModel>,
    ctx: DeviceContextModel,
    field: int,
    l: int,
    c: int,
) -> bool {
    exists|j: int| #[trigger] voices(bound, ctx, field, l, c, j)
}

proof fn lemma_sets(content: PolicyContentModel, field: int)
    requires
        0 <= field < 9,
    ensures
        sets(content, field) == (field_of(content, known_tag(field)) is Some),
{
}

proof fn lemma_voices(bound: Seq<BoundRevisionModel>, ctx: DeviceContextModel, field: int, l: int)
    requires
        0 <= field < 9,
        0 <= l < 5,
    ensures
        forall|c: int|
            0 <= c < said_at(chosen(bound, ctx), known_tag(field), l).len() ==> #[trigger] voiced(
                bound,
                ctx,
                field,
                l,
                c,
            ),
        forall|j: int| #[trigger]
            speaks(bound, ctx, field, j) && specificity(bound[j]) == l ==> exists|c: int| #[trigger]
                voices(bound, ctx, field, l, c, j),
{
    let tag = known_tag(field);
    let all = chosen(bound, ctx);
    let bs = at_level(all, level_at(l));
    let cs = said_at(all, tag, l);
    lemma_candidates_members(bs, tag);
    assert forall|c: int| 0 <= c < cs.len() implies #[trigger] voiced(bound, ctx, field, l, c) by {
        assert(sourced(cs, c, bs, tag));
        let k = choose|k: int| #[trigger] comes_from(cs, c, bs, k, tag);
        assert(bs.contains(bs[k]));
        lemma_at_level_members(all, l, bs[k]);
        lemma_chosen_members(bound, ctx, bs[k]);
        let j = choose|j: int| 0 <= j < bound.len() && bound[j] == bs[k];
        lemma_sets(bound[j].revision.body.content, field);
        assert(voices(bound, ctx, field, l, c, j));
    }
    assert forall|j: int| #[trigger]
        speaks(bound, ctx, field, j) && specificity(bound[j]) == l implies exists|c: int| #[trigger]
        voices(bound, ctx, field, l, c, j) by {
        lemma_sets(bound[j].revision.body.content, field);
        assert(bound.contains(bound[j]));
        lemma_chosen_members(bound, ctx, bound[j]);
        lemma_at_level_members(all, l, bound[j]);
        let k = choose|k: int| 0 <= k < bs.len() && bs[k] == bound[j];
        assert(field_of(bs[k].revision.body.content, tag) is Some);
        let c = choose|c: int| #[trigger] comes_from(cs, c, bs, k, tag);
        assert(voices(bound, ctx, field, l, c, j));
    }
}

proof fn lemma_pin_at_found(bs: Seq<BoundRevisionModel>, field: Tag, level: TargetLevel)
    ensures
        pin_at(bs, field, level) is Some <==> exists|k: int|
            0 <= k < bs.len() && (#[trigger] bs[k]).revision.body.pinned_fields.contains(field),
    decreases bs.len(),
{
    if bs.len() > 0 {
        let front = bs.drop_last();
        let n = bs.len() - 1;
        lemma_pin_at_found(front, field, level);
        if bs[n].revision.body.pinned_fields.contains(field) {
        } else {
            if exists|k: int|
                0 <= k < bs.len() && (#[trigger] bs[k]).revision.body.pinned_fields.contains(
                    field,
                ) {
                let k = choose|k: int|
                    0 <= k < bs.len() && (#[trigger] bs[k]).revision.body.pinned_fields.contains(
                        field,
                    );
                assert(front[k] == bs[k]);
            }
            if pin_at(front, field, level) is Some {
                let k = choose|k: int|
                    0 <= k < front.len() && (
                    #[trigger] front[k]).revision.body.pinned_fields.contains(field);
                assert(bs[k] == front[k]);
            }
        }
    }
}

/// Whether the level at `l` pins a field.
spec fn level_pins(bound: Seq<BoundRevisionModel>, ctx: DeviceContextModel, field: int, l: int) -> bool {
    pin_at(at_level(chosen(bound, ctx), level_at(l)), known_tag(field), level_at(l)) is Some
}

proof fn lemma_level_pins(
    bound: Seq<BoundRevisionModel>,
    ctx: DeviceContextModel,
    field: int,
    l: int,
)
    requires
        0 <= l < 5,
    ensures
        level_pins(bound, ctx, field, l) <==> exists|p: int| #[trigger]
            pinning(bound, ctx, field, p) && specificity(bound[p]) == l,
{
    let all = chosen(bound, ctx);
    let bs = at_level(all, level_at(l));
    lemma_pin_at_found(bs, known_tag(field), level_at(l));
    if level_pins(bound, ctx, field, l) {
        let k = choose|k: int|
            0 <= k < bs.len() && (#[trigger] bs[k]).revision.body.pinned_fields.contains(
                known_tag(field),
            );
        assert(bs.contains(bs[k]));
        lemma_at_level_members(all, l, bs[k]);
        lemma_chosen_members(bound, ctx, bs[k]);
        let p = choose|p: int| 0 <= p < bound.len() && bound[p] == bs[k];
        assert(pinning(bound, ctx, field, p));
    }
    if exists|p: int| #[trigger] pinning(bound, ctx, field, p) && specificity(bound[p]) == l {
        let p = choose|p: int| #[trigger]
            pinning(bound, ctx, field, p) && specificity(bound[p]) == l;
        assert(bound.contains(bound[p]));
        lemma_chosen_members(bound, ctx, bound[p]);
        lemma_at_level_members(all, l, bound[p]);
        let k = choose|k: int| 0 <= k < bs.len() && bs[k] == bound[p];
        assert(bs[k].revision.body.pinned_fields.contains(known_tag(field)));
    }
}

/// Once no later level sets a field, what is known of it no longer changes.
proof fn lemma_state_stays(bs: Seq<BoundRevisionModel>, field: Tag, l: int, n: int)
    requires
        0 <= l <= n <= 5,
        forall|m: int| l <= m < n ==> (#[trigger] said_at(bs, field, m)).len() == 0,
    ensures
        field_state(bs, field, n) == field_state(bs, field, l),
    decreases n - l,
{
    if l < n {
        assert(said_at(bs, field, n - 1).len() == 0);
        lemma_state_stays(bs, field, l, n - 1);
    }
}

proof fn lemma_unpinned_floor(bound: Seq<BoundRevisionModel>, ctx: DeviceContextModel, field: int, n: int)
    requires
        unpinned(bound, ctx, field),
        0 <= n <= 5,
    ensures
        field_state(chosen(bound, ctx), known_tag(field), n).floor is None,
    decreases n,
{
    if n > 0 {
        lemma_unpinned_floor(bound, ctx, field, n - 1);
        lemma_level_pins(bound, ctx, field, n - 1);
    }
}

/// The levels after the leading one say nothing.
proof fn lemma_nothing_later(
    bound: Seq<BoundRevisionModel>,
    ctx: DeviceContextModel,
    field: int,
    i: int,
    m: int,
)
    requires
        0 <= field < 9,
        leads(bound, ctx, field, i),
        specificity(bound[i]) < m < 5,
    ensures
        said_at(chosen(bound, ctx), known_tag(field), m).len() == 0,
{
    let cs = said_at(chosen(bound, ctx), known_tag(field), m);
    lemma_voices(bound, ctx, field, m);
    if cs.len() > 0 {
        assert(voiced(bound, ctx, field, m, 0));
        let j = choose|j: int| #[trigger] voices(bound, ctx, field, m, 0, j);
        assert(speaks(bound, ctx, field, j));
    }
}

/// Without pins, every field but the disabled sensors and the required signals
/// takes the common value of the most specific level that sets it, whatever
/// less specific levels say, and is attributed to that level.
pub proof fn law_most_specific_level_decides(
    bound: Seq<BoundRevisionModel>,
    ctx: DeviceContextModel,
    field: int,
    i: int,
)
    requires
        0 <= field < 9,
        field != 4,
        field != 5,
        leads(bound, ctx, field, i),
        unpinned(bound, ctx, field),
    ensures
        ({
            let l = specificity(bound[i]);
            let cs = said_at(chosen(bound, ctx), known_tag(field), l);
            cs.len() > 0 && field_state(chosen(bound, ctx), known_tag(field), 5).current == Some(
                SlotModel {
                    value: merged_value(cs),
                    provenance: FieldProvenanceModel::Layer {
                        level: level_at(l),
                        binding_id: representative(cs).binding_id,
                        revision: representative(cs).reference,
                    },
                },
            )
        }),
{
    let l = specificity(bound[i]);
    let all = chosen(bound, ctx);
    let tag = known_tag(field);
    lemma_voices(bound, ctx, field, l);
    let c = choose|c: int| #[trigger] voices(bound, ctx, field, l, c, i);
    assert forall|m: int| l + 1 <= m < 5 implies (#[trigger] said_at(all, tag, m)).len() == 0 by {
        lemma_nothing_later(bound, ctx, field, i, m);
    }
    lemma_state_stays(all, tag, l + 1, 5);
    lemma_unpinned_floor(bound, ctx, field, l);
    lemma_level_pins(bound, ctx, field, l);
    assert(field_state(all, tag, l + 1) == state_after(
        field_state(all, tag, l),
        at_level(all, level_at(l)),
        tag,
        level_at(l),
    ));
}

proof fn lemma_resolved_value(bs: Seq<BoundRevisionModel>, field: int)
    requires
        0 <= field < 9,
    ensures
        ({
            let v = resolved_values(bs, 9);
            match field_state(bs, known_tag(field), 5).current {
                Some(slot) => has_shape(known_tag(field), slot.value) ==> match slot.value {
                    FieldModel::Bool(x) => if field == 0 {
                        v.longitudinal_aggregation_allowed == x
                    } else {
                        v.cloud_sync_allowed == x
                    },
                    FieldModel::RedactionProfile(x) => v.redaction_profile == x,
                    FieldModel::AllowedContent(x) => v.allowed_content == x,
                    FieldModel::SensorsDisabled(x) => v.sensors_disabled == x,
                    FieldModel::RequiredSignals(x) => v.sensors_required_signals == x,
                    FieldModel::EnforcementRules(x) => v.enforcement_rules == x,
                    FieldModel::CacheMaxAgeByRisk(x) => v.cache_max_age_seconds_by_risk == x,
                    FieldModel::CacheOfflineGraceSeconds(x) => v.cache_offline_grace_seconds == x,
                },
                None => {
                    &&& field == 0 ==> !v.longitudinal_aggregation_allowed
                    &&& field == 1 ==> !v.cloud_sync_allowed
                    &&& field == 2 ==> v.redaction_profile is Standard
                    &&& field == 3 ==> v.allowed_content == Set::<Tag>::empty()
                    &&& field == 4 ==> v.sensors_disabled == Set::<Seq<char>>::empty()
                    &&& field == 5 ==> v.sensors_required_signals == Seq::<Tag>::empty()
                    &&& field == 6 ==> v.enforcement_rules == Seq::<EnforcementRuleModel>::empty()
                    &&& field == 7 ==> v.cache_max_age_seconds_by_risk == (RiskClassSeconds {
                        low: 86_400,
                        elevated: 21_600,
                        high: 3_600,
                        critical: 900,
                    })
                    &&& field == 8 ==> v.cache_offline_grace_seconds == 604_800
                },
            }
        }),
{
    lemma_resolved_value_from(bs, field, 9);
}

proof fn lemma_resolved_value_from(bs: Seq<BoundRevisionModel>, field: int, n: int)
    requires
        0 <= field < 9,
        0 <= n <= 9,
    ensures
        ({
            let v = resolved_values(bs, n);
            match field_state(bs, known_tag(field), 5).current {
                Some(slot) if field < n => has_shape(known_tag(field), slot.value)
                    ==> match slot.value {
                    FieldModel::Bool(x) => if field == 0 {
                        v.longitudinal_aggregation_allowed == x
                    } else {
                        v.cloud_sync_allowed == x
                    },
                    FieldModel::RedactionProfile(x) => v.redaction_profile == x,
                    FieldModel::AllowedContent(x) => v.allowed_content == x,
                    FieldModel::SensorsDisabled(x) => v.sensors_disabled == x,
                    FieldModel::RequiredSignals(x) => v.sensors_required_signals == x,
                    FieldModel::EnforcementRules(x) => v.enforcement_rules == x,
                    FieldModel::CacheMaxAgeByRisk(x) => v.cache_max_age_seconds_by_risk == x,
                    FieldModel::CacheOfflineGraceSeconds(x) => v.cache_offline_grace_seconds == x,
                },
                _ => {
                    &&& field == 0 ==> !v.longitudinal_aggregation_allowed
                    &&& field == 1 ==> !v.cloud_sync_allowed
                    &&& field == 2 ==> v.redaction_profile is Standard
                    &&& field == 3 ==> v.allowed_content == Set::<Tag>::empty()
                    &&& field == 4 ==> v.sensors_disabled == Set::<Seq<char>>::empty()
                    &&& field == 5 ==> v.sensors_required_signals == Seq::<Tag>::empty()
                    &&& field == 6 ==> v.enforcement_rules == Seq::<EnforcementRuleModel>::empty()
                    &&& field == 7 ==> v.cache_max_age_seconds_by_risk == (RiskClassSeconds {
                        low: 86_400,
                        elevated: 21_600,
                        high: 3_600,
                        critical: 900,
                    })
                    &&& field == 8 ==> v.cache_offline_grace_seconds == 604_800
                },
            }
        }),
    decreases n,
{
    if n > 0 {
        lemma_resolved_value_from(bs, field, n - 1);
    }
}

/// A field that no binding for the device sets takes its baseline: nothing is
/// collected, synced or sent, nothing is blocked, and the cache limits are the
/// default ones.
pub proof fn law_unset_fields_take_the_baseline(
    bound: Seq<BoundRevisionModel>,
    ctx: DeviceContextModel,
    field: int,
)
    requires
        0 <= field < 9,
        forall|j: int| !#[trigger] speaks(bound, ctx, field, j),
    ensures
        ({
            let v = resolution(bound, ctx).0.values;
            &&& field == 0 ==> !v.longitudinal_aggregation_allowed
            &&& field == 1 ==> !v.cloud_sync_allowed
            &&& field == 2 ==> v.redaction_profile is Standard
            &&& field == 3 ==> v.allowed_content == Set::<Tag>::empty()
            &&& field == 4 ==> v.sensors_disabled == Set::<Seq<char>>::empty()
            &&& field == 5 ==> v.sensors_required_signals.len() == 0
            &&& field == 6 ==> v.enforcement_rules.len() == 0
            &&& field == 7 ==> v.cache_max_age_seconds_by_risk.low == 86_400
                && v.cache_max_age_seconds_by_risk.elevated == 21_600
                && v.cache_max_age_seconds_by_risk.high == 3_600
                && v.cache_max_age_seconds_by_risk.critical == 900
            &&& field == 8 ==> v.cache_offline_grace_seconds == 604_800
            &&& resolution(bound, ctx).0.provenance[field].1 is Baseline
        }),
{
    let all = chosen(bound, ctx);
    let tag = known_tag(field);
    assert forall|m: int| 0 <= m < 5 implies (#[trigger] said_at(all, tag, m)).len() == 0 by {
        lemma_voices(bound, ctx, field, m);
        if said_at(all, tag, m).len() > 0 {
            assert(voiced(bound, ctx, field, m, 0));
            let j = choose|j: int| #[trigger] voices(bound, ctx, field, m, 0, j);
            assert(speaks(bound, ctx, field, j));
        }
    }
    lemma_state_stays(all, tag, 0, 5);
    lemma_resolved_value(all, field);
}

/// How strict a value of a field with a total order is.
spec fn weight(v: FieldModel) -> int {
    match v {
        FieldModel::Bool(x) => if x {
            0
        } else {
            1
        },
        FieldModel::RedactionProfile(x) => if x is Strict {
            1
        } else {
            0
        },
        FieldModel::CacheOfflineGraceSeconds(x) => -(x as int),
        _ => 0,
    }
}

spec fn total(field: int) -> bool {
    field == 0 || field == 1 || field == 2 || field == 8
}

proof fn lemma_merged_weight(cs: Seq<CandidateModel>, field: int)
    requires
        total(field),
        cs.len() > 0,
        forall|c: int| 0 <= c < cs.len() ==> has_shape(known_tag(field), (#[trigger] cs[c]).value),
    ensures
        has_shape(known_tag(field), merged_value(cs)),
        forall|c: int| 0 <= c < cs.len() ==> weight(merged_value(cs)) >= weight((#[trigger] cs[c]).value),
        exists|c: int| 0 <= c < cs.len() && merged_value(cs) == (#[trigger] cs[c]).value,
    decreases cs.len(),
{
    if cs.len() == 1 {
        assert(merged_value(cs) == cs[0].value);
    } else {
        let front = cs.drop_last();
        let n = cs.len() - 1;
        assert forall|c: int| 0 <= c < front.len() implies has_shape(
            known_tag(field),
            (#[trigger] front[c]).value,
        ) by {
            assert(front[c] == cs[c]);
        }
        lemma_merged_weight(front, field);
        let k = choose|c: int| 0 <= c < front.len() && merged_value(front) == (
        #[trigger] front[c]).value;
        assert(cs[k] == front[k]);
        assert(cs[n] == cs.last());
        assert(merged_value(cs) == cs[k].value || merged_value(cs) == cs[n].value);
        assert forall|c: int| 0 <= c < cs.len() implies weight(merged_value(cs)) >= weight(
            (#[trigger] cs[c]).value,
        ) by {
            if c < n {
                assert(front[c] == cs[c]);
            }
        }
    }
}

proof fn lemma_said_shapes(bs: Seq<BoundRevisionModel>, field: int, l: int)
    ensures
        forall|c: int|
            0 <= c < said_at(bs, known_tag(field), l).len() ==> has_shape(
                known_tag(field),
                (#[trigger] said_at(bs, known_tag(field), l)[c]).value,
            ),
{
    lemma_candidate_shapes(at_level(bs, level_at(l)), known_tag(field));
}

/// Whether the level at `l` says something about a field and pins it.
spec fn fixed_at(bound: Seq<BoundRevisionModel>, ctx: DeviceContextModel, field: int, l: int) -> bool {
    said_at(chosen(bound, ctx), known_tag(field), l).len() > 0 && level_pins(bound, ctx, field, l)
}

spec fn weight_at(bound: Seq<BoundRevisionModel>, ctx: DeviceContextModel, field: int, l: int) -> int {
    weight(merged_value(said_at(chosen(bound, ctx), known_tag(field), l)))
}

/// Whether the level at `l` is the last of the first `n` that says something.
spec fn last_said(bound: Seq<BoundRevisionModel>, ctx: DeviceContextModel, field: int, l: int, n: int) -> bool {
    &&& 0 <= l < n
    &&& said_at(chosen(bound, ctx), known_tag(field), l).len() > 0
    &&& forall|m: int|
        l < m < n ==> (#[trigger] said_at(chosen(bound, ctx), known_tag(field), m)).len() == 0
}

spec fn weighed(bound: Seq<BoundRevisionModel>, ctx: DeviceContextModel, field: int, n: int) -> bool {
    let st = field_state(chosen(bound, ctx), known_tag(field), n);
    &&& st.current matches Some(c) ==> has_shape(known_tag(field), c.value)
    &&& st.floor matches Some(f) ==> {
        &&& has_shape(known_tag(field), f.value)
        &&& st.current matches Some(c) && weight(c.value) >= weight(f.value)
        &&& forall|l: int|
            0 <= l < n && #[trigger] fixed_at(bound, ctx, field, l) ==> weight(f.value)
                >= weight_at(bound, ctx, field, l)
        &&& exists|l: int|
            0 <= l < n && #[trigger] fixed_at(bound, ctx, field, l) && weight(f.value)
                == weight_at(bound, ctx, field, l)
    }
    &&& st.floor is None ==> forall|l: int| 0 <= l < n ==> !#[trigger] fixed_at(bound, ctx, field, l)
    &&& forall|l: int| #[trigger]
        last_said(bound, ctx, field, l, n) ==> (st.current matches Some(c) && weight(c.value)
            >= weight_at(bound, ctx, field, l) && (weight(c.value) == weight_at(
            bound,
            ctx,
            field,
            l,
        ) || (st.floor matches Some(f) && weight(c.value) == weight(f.value))))
}

#[verifier::rlimit(40)]
proof fn lemma_weighed(bound: Seq<BoundRevisionModel>, ctx: DeviceContextModel, field: int, n: int)
    requires
        total(field),
        0 <= n <= 5,
    ensures
        weighed(bound, ctx, field, n),
    decreases n,
{
    if n > 0 {
        lemma_weighed(bound, ctx, field, n - 1);
        let all = chosen(bound, ctx);
        let tag = known_tag(field);
        let cs = said_at(all, tag, n - 1);
        let before = field_state(all, tag, n - 1);
        let after = field_state(all, tag, n);
        lemma_said_shapes(all, field, n - 1);
        assert(after == state_after(before, at_level(all, level_at(n - 1)), tag, level_at(n - 1)));
        if cs.len() == 0 {
            assert(after == before);
            assert(!fixed_at(bound, ctx, field, n - 1));
            if before.floor is Some {
                let l = choose|l: int|
                    0 <= l < n - 1 && #[trigger] fixed_at(bound, ctx, field, l) && weight(
                        before.floor.unwrap().value,
                    ) == weight_at(bound, ctx, field, l);
                assert(fixed_at(bound, ctx, field, l));
            }
            assert forall|l: int| #[trigger] last_said(bound, ctx, field, l, n) implies last_said(
                bound,
                ctx,
                field,
                l,
                n - 1,
            ) by {}
        } else {
            lemma_merged_weight(cs, field);
            let v = merged_value(cs);
            assert(level_value(before, cs, tag) == v);
            match before.floor {
                Some(f) => {
                    assert(at_least_as_strict(v, f.value) == (weight(v) >= weight(f.value)));
                },
                None => {},
            }
            assert forall|l: int| #[trigger] last_said(bound, ctx, field, l, n) implies l == n
                - 1 by {
                if l < n - 1 {
                    assert(said_at(all, tag, n - 1).len() == 0);
                }
            }
            assert(fixed_at(bound, ctx, field, n - 1) == level_pins(bound, ctx, field, n - 1));
            if before.floor is Some {
                let l = choose|l: int|
                    0 <= l < n - 1 && #[trigger] fixed_at(bound, ctx, field, l) && weight(
                        before.floor.unwrap().value,
                    ) == weight_at(bound, ctx, field, l);
                assert(fixed_at(bound, ctx, field, l));
            }
        }
    }
}

/// The value resolved for a totally ordered field is as strict as everything
/// that counts, and no stricter.
proof fn lemma_total_field(
    bound: Seq<BoundRevisionModel>,
    ctx: DeviceContextModel,
    field: int,
    i: int,
)
    requires
        total(field),
        leads(bound, ctx, field, i),
    ensures
        field_state(chosen(bound, ctx), known_tag(field), 5).current matches Some(slot) && has_shape(
            known_tag(field),
            slot.value,
        ) && (forall|j: int| #[trigger]
            counts(bound, ctx, field, j) ==> weight(slot.value) >= weight(
                saying(bound[j], field).unwrap(),
            )) && exists|j: int| #[trigger]
            counts(bound, ctx, field, j) && weight(slot.value) == weight(
                saying(bound[j], field).unwrap(),
            ),
{
    let all = chosen(bound, ctx);
    let tag = known_tag(field);
    let top = specificity(bound[i]);
    lemma_weighed(bound, ctx, field, 5);
    lemma_voices(bound, ctx, field, top);
    let c0 = choose|c: int| #[trigger] voices(bound, ctx, field, top, c, i);
    assert forall|m: int| top < m < 5 implies (#[trigger] said_at(all, tag, m)).len() == 0 by {
        lemma_nothing_later(bound, ctx, field, i, m);
    }
    assert(last_said(bound, ctx, field, top, 5));
    let st = field_state(all, tag, 5);
    let v = st.current.unwrap().value;
    assert forall|j: int| #[trigger] counts(bound, ctx, field, j) implies weight(v) >= weight(
        saying(bound[j], field).unwrap(),
    ) by {
        let l = specificity(bound[j]);
        lemma_voices(bound, ctx, field, l);
        let c = choose|c: int| #[trigger] voices(bound, ctx, field, l, c, j);
        let cs = said_at(all, tag, l);
        lemma_said_shapes(all, field, l);
        lemma_merged_weight(cs, field);
        assert(weight(merged_value(cs)) >= weight(cs[c].value));
        if leads(bound, ctx, field, j) {
            assert(speaks(bound, ctx, field, i) && speaks(bound, ctx, field, j));
            assert(l == top);
        } else {
            lemma_level_pins(bound, ctx, field, l);
            let p = choose|p: int| #[trigger]
                pinning(bound, ctx, field, p) && specificity(bound[p]) == specificity(bound[j]);
            assert(pinning(bound, ctx, field, p));
            assert(fixed_at(bound, ctx, field, l));
        }
    }
    let l = if weight(v) == weight_at(bound, ctx, field, top) {
        top
    } else {
        choose|l: int|
            0 <= l < 5 && #[trigger] fixed_at(bound, ctx, field, l) && weight(
                st.floor.unwrap().value,
            ) == weight_at(bound, ctx, field, l)
    };
    let cs = said_at(all, tag, l);
    lemma_said_shapes(all, field, l);
    lemma_merged_weight(cs, field);
    let c = choose|c: int| 0 <= c < cs.len() && merged_value(cs) == (#[trigger] cs[c]).value;
    lemma_voices(bound, ctx, field, l);
    assert(voiced(bound, ctx, field, l, c));
    let j = choose|j: int| #[trigger] voices(bound, ctx, field, l, c, j);
    assert(speaks(bound, ctx, field, j));
    if l == top {
        assert(leads(bound, ctx, field, j));
    } else {
        lemma_level_pins(bound, ctx, field, l);
        let p = choose|p: int| #[trigger]
            pinning(bound, ctx, field, p) && specificity(bound[p]) == l;
        assert(pinning(bound, ctx, field, p));
        assert(pinned_beside(bound, ctx, field, j));
    }
    assert(counts(bound, ctx, field, j));
}

/// Syncing is allowed exactly if every binding that counts allows it: the most
/// specific ones for the device, and those of every level that pins the field.
/// A less specific binding that is not pinned has no say.
pub proof fn law_cloud_sync_needs_every_say(
    bound: Seq<BoundRevisionModel>,
    ctx: DeviceContextModel,
    i: int,
)
    requires
        leads(bound, ctx, 1, i),
    ensures
        resolution(bound, ctx).0.values.cloud_sync_allowed <==> forall|j: int| #[trigger]
            counts(bound, ctx, 1, j) ==> bound[j].revision.body.content.egress.cloud_sync_allowed
                == Some(true),
{
    lemma_total_field(bound, ctx, 1, i);
    lemma_resolved_value(chosen(bound, ctx), 1);
    let slot = field_state(chosen(bound, ctx), known_tag(1), 5).current.unwrap();
    let j = choose|j: int| #[trigger]
        counts(bound, ctx, 1, j) && weight(slot.value) == weight(saying(bound[j], 1).unwrap());
    assert(counts(bound, ctx, 1, j));
}

/// Aggregation is allowed exactly if every binding that counts allows it.
pub proof fn law_aggregation_needs_every_say(
    bound: Seq<BoundRevisionModel>,
    ctx: DeviceContextModel,
    i: int,
)
    requires
        leads(bound, ctx, 0, i),
    ensures
        resolution(bound, ctx).0.values.longitudinal_aggregation_allowed <==> forall|j: int|
            #[trigger]
            counts(bound, ctx, 0, j)
                ==> bound[j].revision.body.content.collection.longitudinal_aggregation_allowed
                == Some(true),
{
    lemma_total_field(bound, ctx, 0, i);
    lemma_resolved_value(chosen(bound, ctx), 0);
    let slot = field_state(chosen(bound, ctx), known_tag(0), 5).current.unwrap();
    let j = choose|j: int| #[trigger]
        counts(bound, ctx, 0, j) && weight(slot.value) == weight(saying(bound[j], 0).unwrap());
    assert(counts(bound, ctx, 0, j));
}

/// Redaction is strict exactly if some binding that counts asks for it. A less
/// specific binding that is not pinned has no say.
pub proof fn law_redaction_is_strict_where_some_say_asks(
    bound: Seq<BoundRevisionModel>,
    ctx: DeviceContextModel,
    i: int,
)
    requires
        leads(bound, ctx, 2, i),
    ensures
        resolution(bound, ctx).0.values.redaction_profile is Strict <==> exists|j: int| #[trigger]
            counts(bound, ctx, 2, j) && bound[j].revision.body.content.egress.redaction_profile
                == Some(RedactionProfile::Strict),
{
    lemma_total_field(bound, ctx, 2, i);
    lemma_resolved_value(chosen(bound, ctx), 2);
    let slot = field_state(chosen(bound, ctx), known_tag(2), 5).current.unwrap();
    let j = choose|j: int| #[trigger]
        counts(bound, ctx, 2, j) && weight(slot.value) == weight(saying(bound[j], 2).unwrap());
    assert(counts(bound, ctx, 2, j));
    assert(speaks(bound, ctx, 2, j));
    if exists|j: int| #[trigger]
        counts(bound, ctx, 2, j) && bound[j].revision.body.content.egress.redaction_profile == Some(
            RedactionProfile::Strict,
        ) {
        let k = choose|k: int| #[trigger]
            counts(bound, ctx, 2, k) && bound[k].revision.body.content.egress.redaction_profile
                == Some(RedactionProfile::Strict);
        assert(weight(saying(bound[k], 2).unwrap()) == 1);
    }
}

/// The offline grace is the shortest that a binding that counts grants.
pub proof fn law_offline_grace_is_the_shortest_granted(
    bound: Seq<BoundRevisionModel>,
    ctx: DeviceContextModel,
    i: int,
)
    requires
        leads(bound, ctx, 8, i),
    ensures
        forall|j: int| #[trigger]
            counts(bound, ctx, 8, j) ==> resolution(
                bound,
                ctx,
            ).0.values.cache_offline_grace_seconds
                <= bound[j].revision.body.content.cache.offline_grace_seconds.unwrap(),
        exists|j: int| #[trigger]
            counts(bound, ctx, 8, j) && bound[j].revision.body.content.cache.offline_grace_seconds
                == Some(resolution(bound, ctx).0.values.cache_offline_grace_seconds),
{
    lemma_total_field(bound, ctx, 8, i);
    lemma_resolved_value(chosen(bound, ctx), 8);
    let slot = field_state(chosen(bound, ctx), known_tag(8), 5).current.unwrap();
    let j = choose|j: int| #[trigger]
        counts(bound, ctx, 8, j) && weight(slot.value) == weight(saying(bound[j], 8).unwrap());
    assert(counts(bound, ctx, 8, j));
    assert(speaks(bound, ctx, 8, j));
    assert forall|j: int| #[trigger] counts(bound, ctx, 8, j) implies resolution(
        bound,
        ctx,
    ).0.values.cache_offline_grace_seconds
        <= bound[j].revision.body.content.cache.offline_grace_seconds.unwrap() by {
        assert(speaks(bound, ctx, 8, j));
    }
}


/// The common value of allowed content holds what every candidate allows.
proof fn lemma_merged_content(cs: Seq<CandidateModel>, class: Tag)
    requires
        cs.len() > 0,
        forall|c: int| 0 <= c < cs.len() ==> has_shape(known_tag(3), (#[trigger] cs[c]).value),
    ensures
        merged_value(cs) matches FieldModel::AllowedContent(m) && (m.contains(class) <==> forall|
            c: int,
        |
            0 <= c < cs.len() ==> ((#[trigger] cs[c]).value matches FieldModel::AllowedContent(s)
                && s.contains(class))),
    decreases cs.len(),
{
    if cs.len() > 1 {
        let front = cs.drop_last();
        let n = cs.len() - 1;
        assert forall|c: int| 0 <= c < front.len() implies has_shape(
            known_tag(3),
            (#[trigger] front[c]).value,
        ) by {
            assert(front[c] == cs[c]);
        }
        lemma_merged_content(front, class);
        assert(has_shape(known_tag(3), cs[n].value));
        assert(cs.last() == cs[n]);
        assert((forall|c: int|
            0 <= c < front.len() ==> ((#[trigger] front[c]).value matches FieldModel::AllowedContent(
                s,
            ) && s.contains(class))) && (cs[n].value matches FieldModel::AllowedContent(s)
            && s.contains(class)) ==> forall|c: int|
            0 <= c < cs.len() ==> ((#[trigger] cs[c]).value matches FieldModel::AllowedContent(s)
                && s.contains(class))) by {
            assert(forall|c: int| 0 <= c < n ==> front[c] == #[trigger] cs[c]);
        }
        assert((forall|c: int|
            0 <= c < cs.len() ==> ((#[trigger] cs[c]).value matches FieldModel::AllowedContent(s)
                && s.contains(class))) ==> forall|c: int|
            0 <= c < front.len() ==> ((#[trigger] front[c]).value matches FieldModel::AllowedContent(
                s,
            ) && s.contains(class))) by {
            assert(forall|c: int| 0 <= c < n ==> #[trigger] front[c] == cs[c]);
        }
    } else {
        assert(has_shape(known_tag(3), cs[0].value));
    }
}

/// Without pins, a class of content may be sent exactly if each of the most
/// specific bindings that speak of content allows it.
pub proof fn law_content_needs_every_leading_say(
    bound: Seq<BoundRevisionModel>,
    ctx: DeviceContextModel,
    i: int,
    class: Tag,
)
    requires
        leads(bound, ctx, 3, i),
        unpinned(bound, ctx, 3),
    ensures
        resolution(bound, ctx).0.values.allowed_content.contains(class) <==> forall|j: int|
            #[trigger]
            leads(bound, ctx, 3, j) ==> bound[j].revision.body.content.egress.allowed_content.unwrap().contains(
                class,
            ),
{
    let all = chosen(bound, ctx);
    let l = specificity(bound[i]);
    let cs = said_at(all, known_tag(3), l);
    law_most_specific_level_decides(bound, ctx, 3, i);
    lemma_resolved_value(all, 3);
    lemma_said_shapes(all, 3, l);
    lemma_merged_content(cs, class);
    lemma_voices(bound, ctx, 3, l);
    if resolution(bound, ctx).0.values.allowed_content.contains(class) {
        assert forall|j: int| #[trigger]
            leads(
                bound,
                ctx,
                3,
                j,
            ) implies bound[j].revision.body.content.egress.allowed_content.unwrap().contains(
            class,
        ) by {
            assert(speaks(bound, ctx, 3, i) && speaks(bound, ctx, 3, j));
            let c = choose|c: int| #[trigger] voices(bound, ctx, 3, l, c, j);
            assert(cs[c].value matches FieldModel::AllowedContent(s) && s.contains(class));
        }
    } else {
        let c = choose|c: int|
            0 <= c < cs.len() && !((#[trigger] cs[c]).value matches FieldModel::AllowedContent(s)
                && s.contains(class));
        assert(voiced(bound, ctx, 3, l, c));
        let j = choose|j: int| #[trigger] voices(bound, ctx, 3, l, c, j);
        assert(speaks(bound, ctx, 3, j));
        assert(leads(bound, ctx, 3, j));
    }
}

/// The cache limit that a value sets for the risk class of a given height.
spec fn limit_of(v: FieldModel, risk: int) -> int {
    match v {
        FieldModel::CacheMaxAgeByRisk(s) => if risk == 0 {
            s.low as int
        } else if risk == 1 {
            s.elevated as int
        } else if risk == 2 {
            s.high as int
        } else {
            s.critical as int
        },
        _ => 0,
    }
}

proof fn lemma_merged_limits(cs: Seq<CandidateModel>, risk: int)
    requires
        cs.len() > 0,
        forall|c: int| 0 <= c < cs.len() ==> has_shape(known_tag(7), (#[trigger] cs[c]).value),
    ensures
        has_shape(known_tag(7), merged_value(cs)),
        forall|c: int|
            0 <= c < cs.len() ==> limit_of(merged_value(cs), risk) <= limit_of(
                (#[trigger] cs[c]).value,
                risk,
            ),
        exists|c: int|
            0 <= c < cs.len() && limit_of(merged_value(cs), risk) == limit_of(
                (#[trigger] cs[c]).value,
                risk,
            ),
    decreases cs.len(),
{
    if cs.len() > 1 {
        let front = cs.drop_last();
        let n = cs.len() - 1;
        assert forall|c: int| 0 <= c < front.len() implies has_shape(
            known_tag(7),
            (#[trigger] front[c]).value,
        ) by {
            assert(front[c] == cs[c]);
        }
        lemma_merged_limits(front, risk);
        assert(has_shape(known_tag(7), cs[n].value));
        let k = choose|c: int|
            0 <= c < front.len() && limit_of(merged_value(front), risk) == limit_of(
                (#[trigger] front[c]).value,
                risk,
            );
        assert(cs[k] == front[k]);
        assert(cs.last() == cs[n]);
        assert forall|c: int| 0 <= c < cs.len() implies limit_of(merged_value(cs), risk)
            <= limit_of((#[trigger] cs[c]).value, risk) by {
            if c < n {
                assert(front[c] == cs[c]);
            }
        }
    } else {
        assert(has_shape(known_tag(7), cs[0].value));
    }
}

proof fn lemma_limit(bound: Seq<BoundRevisionModel>, ctx: DeviceContextModel, i: int, risk: int)
    requires
        leads(bound, ctx, 7, i),
        unpinned(bound, ctx, 7),
    ensures
        ({
            let v = FieldModel::CacheMaxAgeByRisk(
                resolution(bound, ctx).0.values.cache_max_age_seconds_by_risk,
            );
            &&& forall|j: int| #[trigger]
                leads(bound, ctx, 7, j) ==> limit_of(v, risk) <= limit_of(
                    saying(bound[j], 7).unwrap(),
                    risk,
                )
            &&& exists|j: int| #[trigger]
                leads(bound, ctx, 7, j) && limit_of(v, risk) == limit_of(
                    saying(bound[j], 7).unwrap(),
                    risk,
                )
        }),
{
    let all = chosen(bound, ctx);
    let l = specificity(bound[i]);
    let cs = said_at(all, known_tag(7), l);
    let v = FieldModel::CacheMaxAgeByRisk(
        resolution(bound, ctx).0.values.cache_max_age_seconds_by_risk,
    );
    law_most_specific_level_decides(bound, ctx, 7, i);
    lemma_resolved_value(all, 7);
    lemma_said_shapes(all, 7, l);
    lemma_merged_limits(cs, risk);
    lemma_voices(bound, ctx, 7, l);
    assert forall|j: int| #[trigger] leads(bound, ctx, 7, j) implies limit_of(v, risk) <= limit_of(
        saying(bound[j], 7).unwrap(),
        risk,
    ) by {
        assert(speaks(bound, ctx, 7, i) && speaks(bound, ctx, 7, j));
        let c = choose|c: int| #[trigger] voices(bound, ctx, 7, l, c, j);
        assert(limit_of(merged_value(cs), risk) <= limit_of(cs[c].value, risk));
    }
    let c = choose|c: int|
        0 <= c < cs.len() && limit_of(merged_value(cs), risk) == limit_of(
            (#[trigger] cs[c]).value,
            risk,
        );
    assert(voiced(bound, ctx, 7, l, c));
    let j = choose|j: int| #[trigger] voices(bound, ctx, 7, l, c, j);
    assert(speaks(bound, ctx, 7, j));
    assert(leads(bound, ctx, 7, j));
}

/// Without pins, the cache limit of each risk class is the shortest that one of
/// the most specific bindings sets for that class.
pub proof fn law_cache_limits_are_the_shortest_set(
    bound: Seq<BoundRevisionModel>,
    ctx: DeviceContextModel,
    i: int,
)
    requires
        leads(bound, ctx, 7, i),
        unpinned(bound, ctx, 7),
    ensures
        ({
            let v = resolution(bound, ctx).0.values.cache_max_age_seconds_by_risk;
            &&& forall|j: int| #[trigger]
                leads(bound, ctx, 7, j) ==> {
                    let s = bound[j].revision.body.content.cache.max_age_seconds_by_risk.unwrap();
                    v.low <= s.low && v.elevated <= s.elevated && v.high <= s.high && v.critical
                        <= s.critical
                }
            &&& exists|j: int| #[trigger]
                leads(bound, ctx, 7, j) && v.low
                    == bound[j].revision.body.content.cache.max_age_seconds_by_risk.unwrap().low
            &&& exists|j: int| #[trigger]
                leads(bound, ctx, 7, j) && v.elevated
                    == bound[j].revision.body.content.cache.max_age_seconds_by_risk.unwrap().elevated
            &&& exists|j: int| #[trigger]
                leads(bound, ctx, 7, j) && v.high
                    == bound[j].revision.body.content.cache.max_age_seconds_by_risk.unwrap().high
            &&& exists|j: int| #[trigger]
                leads(bound, ctx, 7, j) && v.critical
                    == bound[j].revision.body.content.cache.max_age_seconds_by_risk.unwrap().critical
        }),
{
    lemma_limit(bound, ctx, i, 0);
    lemma_limit(bound, ctx, i, 1);
    lemma_limit(bound, ctx, i, 2);
    lemma_limit(bound, ctx, i, 3);
    assert forall|j: int| #[trigger] leads(bound, ctx, 7, j) implies saying(bound[j], 7) == Some(
        FieldModel::CacheMaxAgeByRisk(
            bound[j].revision.body.content.cache.max_age_seconds_by_risk.unwrap(),
        ),
    ) by {
        assert(speaks(bound, ctx, 7, j));
    }
}

/// How grave a risk class is.
pub open spec fn gravity(risk: RiskClass) -> int {
    match risk {
        RiskClass::Low => 0,
        RiskClass::Elevated => 1,
        RiskClass::High => 2,
        RiskClass::Critical => 3,
    }
}

/// How far an outcome goes: from allowing, over observing and warning, to
/// blocking.
pub open spec fn force(outcome: EnforcementOutcome) -> int {
    match outcome {
        EnforcementOutcome::Allow => 0,
        EnforcementOutcome::ObserveOnly => 1,
        EnforcementOutcome::Warn => 2,
        EnforcementOutcome::Block => 3,
    }
}

/// What a rule demands, by number: its risk class, and its outcome for each
/// verdict.
pub open spec fn demand(rule: EnforcementRuleModel, which: int) -> int {
    if which == 0 {
        gravity(rule.risk_class)
    } else if which == 1 {
        force(rule.outcomes.verified)
    } else if which == 2 {
        force(rule.outcomes.unverified)
    } else if which == 3 {
        force(rule.outcomes.contradicted)
    } else if which == 4 {
        force(rule.outcomes.review)
    } else {
        force(rule.outcomes.unavailable)
    }
}

proof fn lemma_combined_demand(a: EnforcementRuleModel, b: EnforcementRuleModel, which: int)
    ensures
        demand(combined_rule(a, b), which) >= demand(a, which),
        demand(combined_rule(a, b), which) >= demand(b, which),
        demand(combined_rule(a, b), which) == demand(a, which) || demand(combined_rule(a, b), which)
            == demand(b, which),
        combined_rule(a, b).action_class == a.action_class,
{
}

spec fn rules_of(v: FieldModel) -> Seq<EnforcementRuleModel> {
    match v {
        FieldModel::EnforcementRules(r) => r,
        _ => Seq::empty(),
    }
}

/// The rule for an action class that the candidate at `c` has.
spec fn rule_at(cs: Seq<CandidateModel>, c: int, class: Tag) -> Option<EnforcementRuleModel> {
    first_rule(rules_of(cs[c].value), class)
}

proof fn lemma_merged_rules(cs: Seq<CandidateModel>, class: Tag, which: int)
    requires
        cs.len() > 0,
        forall|c: int|
            0 <= c < cs.len() ==> (#[trigger] cs[c]).value is EnforcementRules && ascending::<
                EnforcementRule,
            >(rules_of(cs[c].value)),
    ensures
        merged_value(cs) is EnforcementRules,
        ascending::<EnforcementRule>(rules_of(merged_value(cs))),
        match first_rule(rules_of(merged_value(cs)), class) {
            None => forall|c: int| 0 <= c < cs.len() ==> #[trigger] rule_at(cs, c, class) is None,
            Some(m) => {
                &&& forall|c: int|
                    0 <= c < cs.len() ==> (#[trigger] rule_at(cs, c, class) matches Some(q)
                        ==> demand(m, which) >= demand(q, which))
                &&& exists|c: int|
                    0 <= c < cs.len() && (#[trigger] rule_at(cs, c, class) matches Some(q)
                        && demand(m, which) == demand(q, which))
            },
        },
    decreases cs.len(),
{
    let n = cs.len() - 1;
    assert(cs[n].value is EnforcementRules);
    if cs.len() > 1 {
        let front = cs.drop_last();
        assert forall|c: int| 0 <= c < front.len() implies (
        #[trigger] front[c]).value is EnforcementRules && ascending::<EnforcementRule>(
            rules_of(front[c].value),
        ) by {
            assert(front[c] == cs[c]);
        }
        lemma_merged_rules(front, class, which);
        let a = rules_of(merged_value(front));
        let b = rules_of(cs[n].value);
        lemma_merged_of_ascending(a, b, class);
        assert(cs.last() == cs[n]);
        assert forall|c: int| 0 <= c < n implies #[trigger] rule_at(cs, c, class) == rule_at(
            front,
            c,
            class,
        ) by {
            assert(front[c] == cs[c]);
        }
        assert(rule_at(cs, n, class) == first_rule(b, class));
        match (first_rule(a, class), first_rule(b, class)) {
            (Some(x), Some(y)) => {
                lemma_combined_demand(x, y, which);
            },
            _ => {},
        }
        if first_rule(a, class) is Some {
            let k = choose|c: int|
                0 <= c < front.len() && (#[trigger] rule_at(front, c, class) matches Some(q)
                    && demand(first_rule(a, class).unwrap(), which) == demand(q, which));
            assert(rule_at(cs, k, class) == rule_at(front, k, class));
        }
    } else {
        assert(rule_at(cs, 0, class) == first_rule(rules_of(merged_value(cs)), class));
    }
}

/// Whether the binding at `j` has `rule` among its rules.
pub open spec fn rules_on(
    bound: Seq<BoundRevisionModel>,
    j: int,
    rule: EnforcementRuleModel,
) -> bool {
    bound[j].revision.body.content.enforcement.rules matches Some(rules) && rules.contains(rule)
}

proof fn lemma_rule_unique(rules: Seq<EnforcementRuleModel>, rule: EnforcementRuleModel)
    requires
        classes_differ(rules),
        rules.contains(rule),
    ensures
        first_rule(rules, rule.action_class) == Some(rule),
    decreases rules.len(),
{
    let i = choose|i: int| 0 <= i < rules.len() && rules[i] == rule;
    if i > 0 {
        let rest = rules.drop_first();
        assert(rules[0].action_class != rules[i].action_class);
        assert(rest[i - 1] == rule);
        assert forall|x: int, y: int|
            #![trigger rest[x], rest[y]]
            0 <= x < y < rest.len() implies rest[x].action_class != rest[y].action_class by {
            assert(rules[x + 1].action_class != rules[y + 1].action_class);
        }
        lemma_rule_unique(rest, rule);
    }
}

proof fn lemma_ascending_differ(rules: Seq<EnforcementRuleModel>)
    requires
        ascending::<EnforcementRule>(rules),
    ensures
        classes_differ(rules),
{
    assert forall|i: int, j: int|
        #![trigger rules[i], rules[j]]
        0 <= i < j < rules.len() implies rules[i].action_class != rules[j].action_class by {
        crate::order::lemma_key_irreflexive(EnforcementRule::sort_key(rules[i]));
    }
}

/// What a binding's sorted rules hold for a class is its rule for that class.
proof fn lemma_said_rules(
    bound: Seq<BoundRevisionModel>,
    ctx: DeviceContextModel,
    l: int,
    c: int,
    j: int,
)
    requires
        rules_differ(bound),
        voices(bound, ctx, 6, l, c, j),
    ensures
        ({
            let v = said_at(chosen(bound, ctx), known_tag(6), l)[c].value;
            &&& v is EnforcementRules
            &&& ascending::<EnforcementRule>(rules_of(v))
            &&& forall|rule: EnforcementRuleModel| #[trigger]
                rules_on(bound, j, rule) ==> first_rule(rules_of(v), rule.action_class) == Some(
                    rule,
                )
            &&& forall|class: Tag|
                (#[trigger] first_rule(rules_of(v), class)) matches Some(rule) ==> rules_on(
                    bound,
                    j,
                    rule,
                ) && rule.action_class == class
        }),
{
    let rules = bound[j].revision.body.content.enforcement.rules.unwrap();
    let sorted = stably_sorted::<EnforcementRule>(rules);
    lemma_sorted_rules_ascend(rules);
    lemma_ascending_differ(sorted);
    law_stable_sort_is_sorted_permutation::<EnforcementRule>(rules);
    lemma_same_members(sorted, rules);
    assert forall|rule: EnforcementRuleModel| #[trigger] rules_on(bound, j, rule) implies first_rule(
        sorted,
        rule.action_class,
    ) == Some(rule) by {
        assert(sorted.contains(rule));
        lemma_rule_unique(sorted, rule);
    }
    assert forall|class: Tag|
        (#[trigger] first_rule(sorted, class)) matches Some(rule) ==> rules_on(bound, j, rule)
            && rule.action_class == class by {
        lemma_first_rule_member(sorted, class);
        if first_rule(sorted, class) is Some {
            assert(sorted.contains(first_rule(sorted, class).unwrap()));
        }
    }
}

/// Without pins, and with one rule for each action class in each binding, there
/// is a rule for a class exactly if one of the most specific bindings has one.
/// It demands as much as each of theirs, in the risk class and for every
/// verdict, and no more than the most demanding of them.
pub proof fn law_rules_demand_the_most_of_the_leading(
    bound: Seq<BoundRevisionModel>,
    ctx: DeviceContextModel,
    i: int,
    class: Tag,
    which: int,
)
    requires
        leads(bound, ctx, 6, i),
        unpinned(bound, ctx, 6),
        rules_differ(bound),
    ensures
        ({
            let rules = resolution(bound, ctx).0.values.enforcement_rules;
            &&& classes_differ(rules)
            &&& (exists|m: EnforcementRuleModel| #[trigger]
                rules.contains(m) && m.action_class == class) <==> (exists|
                j: int,
                q: EnforcementRuleModel,
            |
                leads(bound, ctx, 6, j) && #[trigger] rules_on(bound, j, q) && q.action_class
                    == class)
            &&& forall|m: EnforcementRuleModel, j: int, q: EnforcementRuleModel|
                #![trigger rules.contains(m), rules_on(bound, j, q)]
                rules.contains(m) && leads(bound, ctx, 6, j) && rules_on(bound, j, q)
                    && m.action_class == class && q.action_class == class ==> demand(m, which)
                    >= demand(q, which)
            &&& forall|m: EnforcementRuleModel| #[trigger]
                rules.contains(m) && m.action_class == class ==> exists|
                    j: int,
                    q: EnforcementRuleModel,
                |
                    leads(bound, ctx, 6, j) && #[trigger] rules_on(bound, j, q) && q.action_class
                        == class && demand(m, which) == demand(q, which)
        }),
{
    let all = chosen(bound, ctx);
    let l = specificity(bound[i]);
    let cs = said_at(all, known_tag(6), l);
    let rules = resolution(bound, ctx).0.values.enforcement_rules;
    law_most_specific_level_decides(bound, ctx, 6, i);
    lemma_resolved_value(all, 6);
    lemma_voices(bound, ctx, 6, l);
    assert forall|c: int| 0 <= c < cs.len() implies (#[trigger] cs[c]).value is EnforcementRules
        && ascending::<EnforcementRule>(rules_of(cs[c].value)) by {
        assert(voiced(bound, ctx, 6, l, c));
        let j = choose|j: int| #[trigger] voices(bound, ctx, 6, l, c, j);
        lemma_said_rules(bound, ctx, l, c, j);
    }
    lemma_merged_rules(cs, class, which);
    assert(rules == rules_of(merged_value(cs)));
    lemma_ascending_differ(rules);
    lemma_first_rule_member(rules, class);
    let found = first_rule(rules, class);
    assert forall|m: EnforcementRuleModel| #[trigger]
        rules.contains(m) && m.action_class == class implies found == Some(m) by {
        lemma_rule_unique(rules, m);
    }
    assert forall|j: int, q: EnforcementRuleModel|
        leads(bound, ctx, 6, j) && #[trigger] rules_on(bound, j, q) && q.action_class
            == class implies (found matches Some(m) && demand(m, which) >= demand(q, which)) by {
        assert(speaks(bound, ctx, 6, i) && speaks(bound, ctx, 6, j));
        let c = choose|c: int| #[trigger] voices(bound, ctx, 6, l, c, j);
        lemma_said_rules(bound, ctx, l, c, j);
        assert(rule_at(cs, c, class) == Some(q));
    }
    if found is Some {
        let m = found.unwrap();
        assert(rules.contains(m));
        let c = choose|c: int|
            0 <= c < cs.len() && (#[trigger] rule_at(cs, c, class) matches Some(q) && demand(
                m,
                which,
            ) == demand(q, which));
        let q = rule_at(cs, c, class).unwrap();
        assert(voiced(bound, ctx, 6, l, c));
        let j = choose|j: int| #[trigger] voices(bound, ctx, 6, l, c, j);
        lemma_said_rules(bound, ctx, l, c, j);
        assert(rules_on(bound, j, q) && q.action_class == class);
        assert(speaks(bound, ctx, 6, j));
        assert(leads(bound, ctx, 6, j));
    }
}

/// Whether a value lists a sensor, or a signal class.
spec fn lists(v: FieldModel, sensor: Seq<char>, class: Tag) -> bool {
    match v {
        FieldModel::SensorsDisabled(s) => s.contains(sensor),
        FieldModel::RequiredSignals(s) => s.contains(class),
        _ => false,
    }
}

proof fn lemma_met_lists(a: FieldModel, b: FieldModel, field: int, sensor: Seq<char>, class: Tag)
    requires
        field == 4 || field == 5,
        has_shape(known_tag(field), a),
        has_shape(known_tag(field), b),
    ensures
        has_shape(known_tag(field), field_met(a, b)),
        lists(field_met(a, b), sensor, class) <==> lists(a, sensor, class) || lists(
            b,
            sensor,
            class,
        ),
{
    match (a, b) {
        (FieldModel::RequiredSignals(x), FieldModel::RequiredSignals(y)) => {
            lemma_normalized_members(x + y, class);
            let both = x + y;
            if x.contains(class) {
                let i = choose|i: int| 0 <= i < x.len() && x[i] == class;
                assert(both[i] == class);
            }
            if y.contains(class) {
                let i = choose|i: int| 0 <= i < y.len() && y[i] == class;
                assert(both[x.len() + i] == class);
            }
            if both.contains(class) {
                let i = choose|i: int| 0 <= i < both.len() && both[i] == class;
                if i < x.len() {
                    assert(x[i] == class);
                } else {
                    assert(y[i - x.len()] == class);
                }
            }
        },
        _ => {},
    }
}

proof fn lemma_merged_lists(cs: Seq<CandidateModel>, field: int, sensor: Seq<char>, class: Tag)
    requires
        field == 4 || field == 5,
        cs.len() > 0,
        forall|c: int| 0 <= c < cs.len() ==> has_shape(known_tag(field), (#[trigger] cs[c]).value),
    ensures
        has_shape(known_tag(field), merged_value(cs)),
        lists(merged_value(cs), sensor, class) <==> exists|c: int|
            0 <= c < cs.len() && lists((#[trigger] cs[c]).value, sensor, class),
    decreases cs.len(),
{
    assert(has_shape(known_tag(field), cs[cs.len() - 1].value));
    if cs.len() > 1 {
        let front = cs.drop_last();
        let n = cs.len() - 1;
        assert forall|c: int| 0 <= c < front.len() implies has_shape(
            known_tag(field),
            (#[trigger] front[c]).value,
        ) by {
            assert(front[c] == cs[c]);
        }
        lemma_merged_lists(front, field, sensor, class);
        lemma_met_lists(merged_value(front), cs[n].value, field, sensor, class);
        if exists|c: int| 0 <= c < front.len() && lists((#[trigger] front[c]).value, sensor, class) {
            let c = choose|c: int|
                0 <= c < front.len() && lists((#[trigger] front[c]).value, sensor, class);
            assert(cs[c] == front[c]);
        }
        if exists|c: int| 0 <= c < cs.len() && lists((#[trigger] cs[c]).value, sensor, class) {
            let c = choose|c: int|
                0 <= c < cs.len() && lists((#[trigger] cs[c]).value, sensor, class);
            if c < n {
                assert(front[c] == cs[c]);
            }
        }
    }
}

/// Whether the level at `l` lists a sensor or a signal class.
spec fn listed_at(
    bound: Seq<BoundRevisionModel>,
    ctx: DeviceContextModel,
    field: int,
    l: int,
    sensor: Seq<char>,
    class: Tag,
) -> bool {
    said_at(chosen(bound, ctx), known_tag(field), l).len() > 0 && lists(
        merged_value(said_at(chosen(bound, ctx), known_tag(field), l)),
        sensor,
        class,
    )
}

/// Whether what is known so far lists a sensor or a signal class.
spec fn listed_now(st: FieldStateModel, sensor: Seq<char>, class: Tag) -> bool {
    st.current matches Some(c) && lists(c.value, sensor, class)
}

proof fn lemma_accumulated(
    bound: Seq<BoundRevisionModel>,
    ctx: DeviceContextModel,
    field: int,
    n: int,
)
    requires
        field == 4 || field == 5,
        0 <= n <= 5,
    ensures
        ({
            let st = field_state(chosen(bound, ctx), known_tag(field), n);
            &&& st.current matches Some(c) ==> has_shape(known_tag(field), c.value)
            &&& st.floor matches Some(f) ==> has_shape(known_tag(field), f.value) && (
            st.current matches Some(c) && forall|sensor: Seq<char>, class: Tag| #[trigger]
                lists(f.value, sensor, class) ==> lists(c.value, sensor, class))
            &&& forall|sensor: Seq<char>, class: Tag, l: int|
                0 <= l < n && #[trigger] listed_at(bound, ctx, field, l, sensor, class)
                    ==> listed_now(st, sensor, class)
            &&& forall|sensor: Seq<char>, class: Tag|
                #[trigger] listed_now(st, sensor, class) ==> exists|l: int|
                    0 <= l < n && #[trigger] listed_at(bound, ctx, field, l, sensor, class)
        }),
    decreases n,
{
    if n > 0 {
        lemma_accumulated(bound, ctx, field, n - 1);
        let all = chosen(bound, ctx);
        let tag = known_tag(field);
        let cs = said_at(all, tag, n - 1);
        let before = field_state(all, tag, n - 1);
        let after = field_state(all, tag, n);
        assert(after == state_after(before, at_level(all, level_at(n - 1)), tag, level_at(n - 1)));
        if cs.len() == 0 {
            assert(after == before);
            assert forall|sensor: Seq<char>, class: Tag|
                #[trigger] listed_now(after, sensor, class) implies exists|l: int|
                0 <= l < n && #[trigger] listed_at(bound, ctx, field, l, sensor, class) by {
                let l = choose|l: int|
                    0 <= l < n - 1 && #[trigger] listed_at(bound, ctx, field, l, sensor, class);
                assert(listed_at(bound, ctx, field, l, sensor, class));
            }
        } else {
            lemma_said_shapes(all, field, n - 1);
            let m = merged_value(cs);
            lemma_merged_lists(cs, field, Seq::empty(), known_tag(0));
            let v = level_value(before, cs, tag);
            assert(has_shape(tag, v) && forall|sensor: Seq<char>, class: Tag|
                #[trigger] lists(v, sensor, class) <==> lists(m, sensor, class) || (
                before.current matches Some(c) && lists(c.value, sensor, class))) by {
                assert forall|sensor: Seq<char>, class: Tag|
                    #[trigger] lists(v, sensor, class) <==> lists(m, sensor, class) || (
                    before.current matches Some(c) && lists(c.value, sensor, class)) by {
                    match before.current {
                        Some(c) => {
                            lemma_met_lists(c.value, m, field, sensor, class);
                        },
                        None => {},
                    }
                }
                match before.current {
                    Some(c) => {
                        lemma_met_lists(c.value, m, field, Seq::empty(), known_tag(0));
                    },
                    None => {},
                }
            }
            assert(!loosens_pin(before, cs, tag)) by {
                match before.floor {
                    Some(f) => {
                        match (v, f.value) {
                            (FieldModel::SensorsDisabled(x), FieldModel::SensorsDisabled(y)) => {
                                assert forall|s: Seq<char>| #[trigger] y.contains(s) implies x.contains(s) by {
                                    assert(lists(f.value, s, known_tag(0)));
                                    assert(lists(v, s, known_tag(0)));
                                }
                                assert(y.subset_of(x));
                            },
                            (FieldModel::RequiredSignals(x), FieldModel::RequiredSignals(y)) => {
                                assert forall|i: int| 0 <= i < y.len() implies x.contains(
                                    #[trigger] y[i],
                                ) by {
                                    assert(lists(f.value, Seq::empty(), y[i]));
                                    assert(lists(v, Seq::empty(), y[i]));
                                }
                            },
                            _ => {},
                        }
                    },
                    None => {},
                }
            }
            assert(after.current.unwrap().value == v);
            assert forall|sensor: Seq<char>, class: Tag, l: int|
                0 <= l < n && #[trigger] listed_at(
                    bound,
                    ctx,
                    field,
                    l,
                    sensor,
                    class,
                ) implies listed_now(after, sensor, class) by {
                if l == n - 1 {
                    assert(lists(m, sensor, class));
                } else {
                    assert(listed_now(before, sensor, class));
                }
                assert(lists(v, sensor, class));
            }
            assert forall|sensor: Seq<char>, class: Tag|
                #[trigger] listed_now(after, sensor, class) implies exists|l: int|
                0 <= l < n && #[trigger] listed_at(bound, ctx, field, l, sensor, class) by {
                assert(lists(v, sensor, class));
                if lists(m, sensor, class) {
                    assert(listed_at(bound, ctx, field, n - 1, sensor, class));
                } else {
                    assert(listed_now(before, sensor, class));
                    let l = choose|l: int|
                        0 <= l < n - 1 && #[trigger] listed_at(
                            bound,
                            ctx,
                            field,
                            l,
                            sensor,
                            class,
                        );
                    assert(listed_at(bound, ctx, field, l, sensor, class));
                }
            }
        }
    }
}

/// What the resolved value lists is what some binding for the device lists.
proof fn lemma_listed(
    bound: Seq<BoundRevisionModel>,
    ctx: DeviceContextModel,
    field: int,
    sensor: Seq<char>,
    class: Tag,
)
    requires
        field == 4 || field == 5,
    ensures
        (field_state(chosen(bound, ctx), known_tag(field), 5).current matches Some(slot) && lists(
            slot.value,
            sensor,
            class,
        )) <==> exists|j: int| #[trigger]
            speaks(bound, ctx, field, j) && lists(saying(bound[j], field).unwrap(), sensor, class),
        field_state(chosen(bound, ctx), known_tag(field), 5).current matches Some(slot)
            ==> has_shape(known_tag(field), slot.value),
{
    let all = chosen(bound, ctx);
    let tag = known_tag(field);
    let st = field_state(all, tag, 5);
    lemma_accumulated(bound, ctx, field, 5);
    if st.current matches Some(slot) && lists(slot.value, sensor, class) {
        assert(listed_now(st, sensor, class));
        let l = choose|l: int|
            0 <= l < 5 && #[trigger] listed_at(bound, ctx, field, l, sensor, class);
        let cs = said_at(all, tag, l);
        lemma_said_shapes(all, field, l);
        lemma_merged_lists(cs, field, sensor, class);
        let c = choose|c: int| 0 <= c < cs.len() && lists((#[trigger] cs[c]).value, sensor, class);
        lemma_voices(bound, ctx, field, l);
        assert(voiced(bound, ctx, field, l, c));
        let j = choose|j: int| #[trigger] voices(bound, ctx, field, l, c, j);
        assert(speaks(bound, ctx, field, j));
    }
    if exists|j: int| #[trigger]
        speaks(bound, ctx, field, j) && lists(saying(bound[j], field).unwrap(), sensor, class) {
        let j = choose|j: int| #[trigger]
            speaks(bound, ctx, field, j) && lists(saying(bound[j], field).unwrap(), sensor, class);
        let l = specificity(bound[j]);
        let cs = said_at(all, tag, l);
        lemma_voices(bound, ctx, field, l);
        let c = choose|c: int| #[trigger] voices(bound, ctx, field, l, c, j);
        lemma_said_shapes(all, field, l);
        lemma_merged_lists(cs, field, sensor, class);
        assert(lists(cs[c].value, sensor, class));
        assert(listed_at(bound, ctx, field, l, sensor, class));
        assert(listed_now(st, sensor, class));
    }
}

/// A sensor is disabled exactly if some binding for the device, at any level,
/// disables it. Pins make no difference.
pub proof fn law_sensors_any_binding_disables_are_disabled(
    bound: Seq<BoundRevisionModel>,
    ctx: DeviceContextModel,
    sensor: Seq<char>,
)
    ensures
        resolution(bound, ctx).0.values.sensors_disabled.contains(sensor) <==> exists|j: int|
            0 <= j < bound.len() && heard(#[trigger] bound[j], ctx) && (
            bound[j].revision.body.content.sensors.disabled matches Some(s) && s.contains(sensor)),
{
    lemma_listed(bound, ctx, 4, sensor, known_tag(0));
    lemma_resolved_value(chosen(bound, ctx), 4);
    if exists|j: int|
        0 <= j < bound.len() && heard(#[trigger] bound[j], ctx) && (
        bound[j].revision.body.content.sensors.disabled matches Some(s) && s.contains(sensor)) {
        let j = choose|j: int|
            0 <= j < bound.len() && heard(#[trigger] bound[j], ctx) && (
            bound[j].revision.body.content.sensors.disabled matches Some(s) && s.contains(sensor));
        assert(speaks(bound, ctx, 4, j));
    }
    if exists|j: int| #[trigger]
        speaks(bound, ctx, 4, j) && lists(saying(bound[j], 4).unwrap(), sensor, known_tag(0)) {
        let j = choose|j: int| #[trigger]
            speaks(bound, ctx, 4, j) && lists(saying(bound[j], 4).unwrap(), sensor, known_tag(0));
        assert(heard(bound[j], ctx));
    }
}

/// A signal is required exactly if some binding for the device, at any level,
/// requires it. Pins make no difference.
pub proof fn law_signals_any_binding_requires_are_required(
    bound: Seq<BoundRevisionModel>,
    ctx: DeviceContextModel,
    class: Tag,
)
    ensures
        resolution(bound, ctx).0.values.sensors_required_signals.contains(class) <==> exists|j: int|
            0 <= j < bound.len() && heard(#[trigger] bound[j], ctx) && (
            bound[j].revision.body.content.sensors.required_signals matches Some(s) && s.contains(
                class,
            )),
{
    lemma_listed(bound, ctx, 5, Seq::empty(), class);
    lemma_resolved_value(chosen(bound, ctx), 5);
    if exists|j: int|
        0 <= j < bound.len() && heard(#[trigger] bound[j], ctx) && (
        bound[j].revision.body.content.sensors.required_signals matches Some(s) && s.contains(
            class,
        )) {
        let j = choose|j: int|
            0 <= j < bound.len() && heard(#[trigger] bound[j], ctx) && (
            bound[j].revision.body.content.sensors.required_signals matches Some(s) && s.contains(
                class,
            ));
        lemma_normalized_members(
            bound[j].revision.body.content.sensors.required_signals.unwrap(),
            class,
        );
        assert(speaks(bound, ctx, 5, j));
    }
    if exists|j: int| #[trigger]
        speaks(bound, ctx, 5, j) && lists(saying(bound[j], 5).unwrap(), Seq::empty(), class) {
        let j = choose|j: int| #[trigger]
            speaks(bound, ctx, 5, j) && lists(saying(bound[j], 5).unwrap(), Seq::empty(), class);
        lemma_normalized_members(
            bound[j].revision.body.content.sensors.required_signals.unwrap(),
            class,
        );
        assert(heard(bound[j], ctx));
    }
}

proof fn lemma_representative(cs: Seq<CandidateModel>)
    requires
        cs.len() > 0,
    ensures
        exists|c: int| 0 <= c < cs.len() && representative(cs) == #[trigger] cs[c],
        forall|c: int|
            0 <= c < cs.len() ==> representative(cs).binding_id.0 <= (#[trigger] cs[c]).binding_id.0,
    decreases cs.len(),
{
    let n = cs.len() - 1;
    assert(cs.last() == cs[n]);
    if cs.len() > 1 {
        let front = cs.drop_last();
        lemma_representative(front);
        let c = choose|c: int| 0 <= c < front.len() && representative(front) == #[trigger] front[c];
        assert(cs[c] == front[c]);
        assert forall|c: int| 0 <= c < cs.len() implies representative(cs).binding_id.0 <= (
        #[trigger] cs[c]).binding_id.0 by {
            if c < n {
                assert(front[c] == cs[c]);
            }
        }
    }
}

/// The level of a binding.
pub open spec fn level_of(b: BoundRevisionModel) -> TargetLevel {
    match b.binding.scope {
        TargetScopeModel::Org { .. } => TargetLevel::Org,
        TargetScopeModel::Team { .. } => TargetLevel::Team,
        TargetScopeModel::Project { .. } => TargetLevel::Project,
        TargetScopeModel::Device { .. } => TargetLevel::Device,
        TargetScopeModel::LocalUser => TargetLevel::LocalUser,
    }
}

/// Without pins, a field that the most specific level decides is attributed to
/// that one of its leading bindings whose identifier is the smallest, with the
/// policy, revision and digest that the binding carries.
pub proof fn law_fields_are_attributed_to_a_leading_binding(
    bound: Seq<BoundRevisionModel>,
    ctx: DeviceContextModel,
    field: int,
    i: int,
)
    requires
        0 <= field < 9,
        field != 4,
        field != 5,
        leads(bound, ctx, field, i),
        unpinned(bound, ctx, field),
    ensures
        resolution(bound, ctx).0.provenance.len() == 9,
        resolution(bound, ctx).0.provenance[field].0 == known_tag(field),
        exists|j: int|
            #![trigger leads(bound, ctx, field, j)]
            leads(bound, ctx, field, j) && (forall|k: int|
                #![trigger leads(bound, ctx, field, k)]
                leads(bound, ctx, field, k) ==> bound[j].binding.binding_id.0
                    <= bound[k].binding.binding_id.0) && (
            resolution(bound, ctx).0.provenance[field].1 matches FieldProvenanceModel::Layer {
                level,
                binding_id,
                revision,
            } && level == level_of(bound[j]) && binding_id == bound[j].binding.binding_id
                && revision.policy_id == bound[j].revision.body.policy_id && revision.revision
                == bound[j].revision.body.revision && revision.digest == bound[j].revision.digest),
{
    let l = specificity(bound[i]);
    let cs = said_at(chosen(bound, ctx), known_tag(field), l);
    law_most_specific_level_decides(bound, ctx, field, i);
    lemma_representative(cs);
    lemma_voices(bound, ctx, field, l);
    let c = choose|c: int| 0 <= c < cs.len() && representative(cs) == #[trigger] cs[c];
    assert(voiced(bound, ctx, field, l, c));
    let j = choose|j: int| #[trigger] voices(bound, ctx, field, l, c, j);
    assert(speaks(bound, ctx, field, j));
    assert(leads(bound, ctx, field, j));
    assert forall|k: int| leads(bound, ctx, field, k) implies bound[j].binding.binding_id.0
        <= bound[k].binding.binding_id.0 by {
        assert(speaks(bound, ctx, field, i) && speaks(bound, ctx, field, k));
        let d = choose|d: int| #[trigger] voices(bound, ctx, field, l, d, k);
        assert(representative(cs).binding_id.0 <= cs[d].binding_id.0);
    }
}

/// Whether the binding at `p` pins a field that it sets, and no more general one
/// for the device pins that field.
pub open spec fn pins_first(
    bound: Seq<BoundRevisionModel>,
    ctx: DeviceContextModel,
    field: int,
    p: int,
) -> bool {
    &&& speaks(bound, ctx, field, p)
    &&& pins(bound[p], field)
    &&& forall|q: int| #[trigger]
        pinning(bound, ctx, field, q) ==> specificity(bound[q]) >= specificity(bound[p])
}

proof fn lemma_no_earlier_floor(
    bound: Seq<BoundRevisionModel>,
    ctx: DeviceContextModel,
    field: int,
    p: int,
    n: int,
)
    requires
        pins_first(bound, ctx, field, p),
        0 <= n <= specificity(bound[p]),
    ensures
        field_state(chosen(bound, ctx), known_tag(field), n).floor is None,
        forall|k: int| 0 <= k < n ==> !#[trigger] level_pins(bound, ctx, field, k),
    decreases n,
{
    if n > 0 {
        lemma_no_earlier_floor(bound, ctx, field, p, n - 1);
        lemma_level_pins(bound, ctx, field, n - 1);
    }
}

/// The common value of allowed content, or of cache limits, has its shape.
proof fn lemma_merged_shape(cs: Seq<CandidateModel>, field: int)
    requires
        field == 3 || field == 7,
        cs.len() > 0,
        forall|c: int| 0 <= c < cs.len() ==> has_shape(known_tag(field), (#[trigger] cs[c]).value),
    ensures
        has_shape(known_tag(field), merged_value(cs)),
{
    if field == 3 {
        lemma_merged_content(cs, known_tag(0));
    } else {
        lemma_merged_limits(cs, 0);
    }
}

proof fn lemma_floor_holds(
    bound: Seq<BoundRevisionModel>,
    ctx: DeviceContextModel,
    field: int,
    p: int,
    n: int,
)
    requires
        field == 3 || field == 7,
        pins_first(bound, ctx, field, p),
        specificity(bound[p]) < n <= 5,
    ensures
        ({
            let all = chosen(bound, ctx);
            let st = field_state(all, known_tag(field), n);
            let m = merged_value(said_at(all, known_tag(field), specificity(bound[p])));
            &&& st.floor matches Some(f) && has_shape(known_tag(field), f.value)
                && at_least_as_strict(f.value, m)
            &&& st.current matches Some(c) && has_shape(known_tag(field), c.value)
                && at_least_as_strict(c.value, st.floor.unwrap().value)
            &&& has_shape(known_tag(field), m)
        }),
    decreases n,
{
    let all = chosen(bound, ctx);
    let tag = known_tag(field);
    let l = specificity(bound[p]);
    let cs = said_at(all, tag, n - 1);
    let before = field_state(all, tag, n - 1);
    let after = field_state(all, tag, n);
    lemma_said_shapes(all, field, n - 1);
    assert(after == state_after(before, at_level(all, level_at(n - 1)), tag, level_at(n - 1)));
    if cs.len() > 0 {
        lemma_merged_shape(cs, field);
    }
    if n - 1 == l {
        lemma_voices(bound, ctx, field, l);
        let c = choose|c: int| #[trigger] voices(bound, ctx, field, l, c, p);
        lemma_no_earlier_floor(bound, ctx, field, p, l);
        lemma_level_pins(bound, ctx, field, l);
        assert(pinning(bound, ctx, field, p));
        assert(level_pins(bound, ctx, field, l));
    } else {
        lemma_floor_holds(bound, ctx, field, p, n - 1);
    }
}

/// Where content is pinned first, nothing may be sent that one of the bindings
/// of the pinning level does not allow, whatever more specific ones say.
pub proof fn law_pinned_content_stays_within_the_pin(
    bound: Seq<BoundRevisionModel>,
    ctx: DeviceContextModel,
    p: int,
    j: int,
)
    requires
        pins_first(bound, ctx, 3, p),
        speaks(bound, ctx, 3, j),
        specificity(bound[j]) == specificity(bound[p]),
    ensures
        resolution(bound, ctx).0.values.allowed_content.subset_of(
            bound[j].revision.body.content.egress.allowed_content.unwrap(),
        ),
{
    let all = chosen(bound, ctx);
    let l = specificity(bound[p]);
    let cs = said_at(all, known_tag(3), l);
    lemma_floor_holds(bound, ctx, 3, p, 5);
    lemma_resolved_value(all, 3);
    lemma_voices(bound, ctx, 3, l);
    let c = choose|c: int| #[trigger] voices(bound, ctx, 3, l, c, j);
    lemma_said_shapes(all, 3, l);
    let allowed = bound[j].revision.body.content.egress.allowed_content.unwrap();
    assert(cs[c].value == FieldModel::AllowedContent(allowed));
    let resolved = resolution(bound, ctx).0.values.allowed_content;
    assert forall|class: Tag| #[trigger] resolved.contains(class) implies allowed.contains(class) by {
        lemma_merged_content(cs, class);
        assert(cs[c].value matches FieldModel::AllowedContent(s) && s.contains(class));
    }
}

/// Where cache limits are pinned first, no limit is longer than one of the
/// pinning level sets, whatever more specific ones say.
pub proof fn law_pinned_cache_limits_stay_within_the_pin(
    bound: Seq<BoundRevisionModel>,
    ctx: DeviceContextModel,
    p: int,
    j: int,
)
    requires
        pins_first(bound, ctx, 7, p),
        speaks(bound, ctx, 7, j),
        specificity(bound[j]) == specificity(bound[p]),
    ensures
        ({
            let v = resolution(bound, ctx).0.values.cache_max_age_seconds_by_risk;
            let s = bound[j].revision.body.content.cache.max_age_seconds_by_risk.unwrap();
            v.low <= s.low && v.elevated <= s.elevated && v.high <= s.high && v.critical
                <= s.critical
        }),
{
    let all = chosen(bound, ctx);
    let l = specificity(bound[p]);
    let cs = said_at(all, known_tag(7), l);
    lemma_floor_holds(bound, ctx, 7, p, 5);
    lemma_resolved_value(all, 7);
    lemma_voices(bound, ctx, 7, l);
    let c = choose|c: int| #[trigger] voices(bound, ctx, 7, l, c, j);
    lemma_said_shapes(all, 7, l);
    lemma_merged_limits(cs, 0);
    lemma_merged_limits(cs, 1);
    lemma_merged_limits(cs, 2);
    lemma_merged_limits(cs, 3);
    assert(limit_of(merged_value(cs), 0) <= limit_of(cs[c].value, 0));
}

/// Where rules are pinned first, there is a rule for every action class that a
/// binding of the pinning level has one for, and it demands no less, whatever
/// more specific ones say.
pub proof fn law_pinned_rules_stay_as_demanding(
    bound: Seq<BoundRevisionModel>,
    ctx: DeviceContextModel,
    p: int,
    j: int,
    q: EnforcementRuleModel,
    which: int,
)
    requires
        pins_first(bound, ctx, 6, p),
        speaks(bound, ctx, 6, j),
        specificity(bound[j]) == specificity(bound[p]),
        rules_differ(bound),
        rules_on(bound, j, q),
    ensures
        exists|m: EnforcementRuleModel| #[trigger]
            resolution(bound, ctx).0.values.enforcement_rules.contains(m) && m.action_class
                == q.action_class && demand(m, which) >= demand(q, which),
{
    let all = chosen(bound, ctx);
    let tag = known_tag(6);
    let l = specificity(bound[p]);
    let cs = said_at(all, tag, l);
    let bs = at_level(all, level_at(l));
    assert(bound.contains(bound[p]));
    lemma_chosen_members(bound, ctx, bound[p]);
    lemma_at_level_members(all, l, bound[p]);
    let i = choose|i: int| 0 <= i < bs.len() && bs[i] == bound[p];
    lemma_sets(bound[p].revision.body.content, 6);
    lemma_no_earlier_floor(bound, ctx, 6, p, l);
    assert forall|k: int| 0 <= k < l implies pin_at(
        at_level(all, #[trigger] level_at(k)),
        tag,
        level_at(k),
    ) is None by {
        assert(!level_pins(bound, ctx, 6, k));
    }
    assert forall|k: int| 0 <= k < all.len() implies ((
    #[trigger] all[k]).revision.body.content.enforcement.rules matches Some(rules)
        ==> classes_differ(rules)) by {
        assert(all.contains(all[k]));
        lemma_chosen_members(bound, ctx, all[k]);
        let b = choose|b: int| 0 <= b < bound.len() && bound[b] == all[k];
        assert(bound[b] == all[k]);
    }
    law_pinned_fields_only_tighten(all, tag, l, i);
    lemma_voices(bound, ctx, 6, l);
    let c = choose|c: int| #[trigger] voices(bound, ctx, 6, l, c, j);
    assert forall|c: int| 0 <= c < cs.len() implies (#[trigger] cs[c]).value is EnforcementRules
        && ascending::<EnforcementRule>(rules_of(cs[c].value)) by {
        assert(voiced(bound, ctx, 6, l, c));
        let k = choose|k: int| #[trigger] voices(bound, ctx, 6, l, c, k);
        lemma_said_rules(bound, ctx, l, c, k);
    }
    lemma_said_rules(bound, ctx, l, c, j);
    lemma_merged_rules(cs, q.action_class, which);
    assert(rule_at(cs, c, q.action_class) == Some(q));
    let pinned = rules_of(merged_value(cs));
    lemma_first_rule_member(pinned, q.action_class);
    let r = first_rule(pinned, q.action_class).unwrap();
    let k = choose|k: int| 0 <= k < pinned.len() && pinned[k] == r;
    let slot = field_state(all, tag, 5).current.unwrap();
    lemma_resolved_value(all, 6);
    assert(slot.value is EnforcementRules) by {
        lemma_rules_shape(bound, ctx, 5);
    }
    let resolved = rules_of(slot.value);
    assert(first_rule(resolved, pinned[k].action_class) is Some);
    lemma_first_rule_member(resolved, q.action_class);
    let m = first_rule(resolved, q.action_class).unwrap();
    assert(resolved.contains(m));
    assert(m.outcomes.outcome(crate::evidence::Verdict::Verified).rank()
        >= r.outcomes.outcome(crate::evidence::Verdict::Verified).rank());
    assert(m.outcomes.outcome(crate::evidence::Verdict::Unverified).rank()
        >= r.outcomes.outcome(crate::evidence::Verdict::Unverified).rank());
    assert(m.outcomes.outcome(crate::evidence::Verdict::Contradicted).rank()
        >= r.outcomes.outcome(crate::evidence::Verdict::Contradicted).rank());
    assert(m.outcomes.outcome(crate::evidence::Verdict::Review).rank()
        >= r.outcomes.outcome(crate::evidence::Verdict::Review).rank());
    assert(m.outcomes.outcome(crate::evidence::Verdict::Unavailable).rank()
        >= r.outcomes.outcome(crate::evidence::Verdict::Unavailable).rank());
    assert(demand(m, which) >= demand(r, which));
}

proof fn lemma_rules_shape(bound: Seq<BoundRevisionModel>, ctx: DeviceContextModel, n: int)
    requires
        0 <= n <= 5,
    ensures
        ({
            let st = field_state(chosen(bound, ctx), known_tag(6), n);
            &&& st.current matches Some(c) ==> c.value is EnforcementRules
            &&& st.floor matches Some(f) ==> f.value is EnforcementRules
        }),
    decreases n,
{
    if n > 0 {
        let all = chosen(bound, ctx);
        let cs = said_at(all, known_tag(6), n - 1);
        lemma_rules_shape(bound, ctx, n - 1);
        lemma_said_shapes(all, 6, n - 1);
        if cs.len() > 0 {
            lemma_merged_is_rules(cs);
        }
    }
}

proof fn lemma_merged_is_rules(cs: Seq<CandidateModel>)
    requires
        cs.len() > 0,
        forall|c: int| 0 <= c < cs.len() ==> has_shape(known_tag(6), (#[trigger] cs[c]).value),
    ensures
        merged_value(cs) is EnforcementRules,
    decreases cs.len(),
{
    assert(has_shape(known_tag(6), cs[cs.len() - 1].value));
    if cs.len() > 1 {
        let front = cs.drop_last();
        assert forall|c: int| 0 <= c < front.len() implies has_shape(
            known_tag(6),
            (#[trigger] front[c]).value,
        ) by {
            assert(front[c] == cs[c]);
        }
        lemma_merged_is_rules(front);
    }
}

/// Whether a note reports differing values for a field at a level.
pub open spec fn reports_conflict(d: PolicyDiagnosticModel, field: int) -> bool {
    d.code == DiagnosticCode::ConflictingBindingsAtLevel && d.field == Some(known_tag(field))
}

/// Whether some note reports differing values for a field.
pub open spec fn conflict_noted(notes: Seq<PolicyDiagnosticModel>, field: int) -> bool {
    exists|i: int| 0 <= i < notes.len() && reports_conflict(#[trigger] notes[i], field)
}

proof fn lemma_noted_of_both(
    a: Seq<PolicyDiagnosticModel>,
    b: Seq<PolicyDiagnosticModel>,
    field: int,
)
    ensures
        conflict_noted(a + b, field) == (conflict_noted(a, field) || conflict_noted(b, field)),
{
    let both = a + b;
    if conflict_noted(a, field) {
        let i = choose|i: int| 0 <= i < a.len() && reports_conflict(#[trigger] a[i], field);
        assert(both[i] == a[i]);
    }
    if conflict_noted(b, field) {
        let i = choose|i: int| 0 <= i < b.len() && reports_conflict(#[trigger] b[i], field);
        assert(both[a.len() + i] == b[i]);
    }
    if conflict_noted(both, field) {
        let i = choose|i: int| 0 <= i < both.len() && reports_conflict(#[trigger] both[i], field);
        if i < a.len() {
            assert(a[i] == both[i]);
        } else {
            assert(b[i - a.len()] == both[i]);
        }
    }
}

proof fn lemma_selection_notes_no_conflict(
    bound: Seq<BoundRevisionModel>,
    ctx: DeviceContextModel,
    field: int,
)
    ensures
        !conflict_noted(selection_notes(bound, ctx), field),
    decreases bound.len(),
{
    if bound.len() > 0 {
        lemma_selection_notes_no_conflict(bound.drop_last(), ctx, field);
        lemma_noted_of_both(
            selection_notes(bound.drop_last(), ctx),
            binding_notes(bound.last().binding, ctx),
            field,
        );
        assert(!conflict_noted(binding_notes(bound.last().binding, ctx), field));
    }
}

proof fn lemma_requirement_notes_no_conflict(
    required: Seq<Tag>,
    declared: Seq<CapabilitySignalModel>,
    field: int,
)
    ensures
        !conflict_noted(requirement_notes(required, declared), field),
    decreases required.len(),
{
    if required.len() > 0 {
        lemma_requirement_notes_no_conflict(required.drop_last(), declared, field);
    }
}

/// Whether the level at `l` says different things about a field.
spec fn differs_at(bs: Seq<BoundRevisionModel>, field: int, l: int) -> bool {
    exists|c: int, d: int|
        #![trigger said_at(bs, known_tag(field), l)[c], said_at(bs, known_tag(field), l)[d]]
        0 <= c < d < said_at(bs, known_tag(field), l).len() && said_at(bs, known_tag(field), l)[c].value
            != said_at(bs, known_tag(field), l)[d].value
}

proof fn lemma_step_notes(bs: Seq<BoundRevisionModel>, f: int, l: int, field: int)
    requires
        0 <= f < 9,
        0 <= field < 9,
    ensures
        conflict_noted(
            step_notes(
                field_state(bs, known_tag(f), l),
                at_level(bs, level_at(l)),
                known_tag(f),
                level_at(l),
            ),
            field,
        ) == (f == field && differs_at(bs, field, l)),
{
    let cs = said_at(bs, known_tag(f), l);
    let notes = step_notes(
        field_state(bs, known_tag(f), l),
        at_level(bs, level_at(l)),
        known_tag(f),
        level_at(l),
    );
    assert(known_tag(f) == known_tag(field) ==> f == field) by {
        assert(known_tag(f).index == f && known_tag(field).index == field);
    }
    if f == field {
        if super::resolve::differing(cs) {
            let i = choose|i: int| 0 <= i < cs.len() && (#[trigger] cs[i]).value != cs[0].value;
            assert(cs[0].value != cs[i].value && 0 < i);
            assert(differs_at(bs, field, l));
            assert(reports_conflict(notes[0], field));
        }
        if differs_at(bs, field, l) {
            let (c, d) = choose|c: int, d: int|
                #![trigger cs[c], cs[d]]
                0 <= c < d < cs.len() && cs[c].value != cs[d].value;
            assert(cs[c].value != cs[0].value || cs[d].value != cs[0].value);
        }
    }
}

proof fn lemma_level_notes(bs: Seq<BoundRevisionModel>, l: int, f: int, field: int)
    requires
        0 <= f <= 9,
        0 <= field < 9,
    ensures
        conflict_noted(level_notes(bs, l, f), field) == (field < f && differs_at(bs, field, l)),
    decreases f,
{
    if f > 0 {
        lemma_level_notes(bs, l, f - 1, field);
        lemma_step_notes(bs, f - 1, l, field);
        lemma_noted_of_both(
            level_notes(bs, l, f - 1),
            step_notes(
                field_state(bs, known_tag(f - 1), l),
                at_level(bs, level_at(l)),
                known_tag(f - 1),
                level_at(l),
            ),
            field,
        );
    }
}

proof fn lemma_resolution_notes(bs: Seq<BoundRevisionModel>, n: int, field: int)
    requires
        0 <= n <= 5,
        0 <= field < 9,
    ensures
        conflict_noted(resolution_notes(bs, n), field) <==> exists|l: int|
            0 <= l < n && #[trigger] differs_at(bs, field, l),
    decreases n,
{
    if n > 0 {
        lemma_resolution_notes(bs, n - 1, field);
        lemma_level_notes(bs, n - 1, 9, field);
        lemma_noted_of_both(resolution_notes(bs, n - 1), level_notes(bs, n - 1, 9), field);
    }
}

/// Whether the bindings at `j` and `k` say different things about a field at
/// one level.
pub open spec fn at_odds(
    bound: Seq<BoundRevisionModel>,
    ctx: DeviceContextModel,
    field: int,
    j: int,
    k: int,
) -> bool {
    &&& speaks(bound, ctx, field, j)
    &&& speaks(bound, ctx, field, k)
    &&& specificity(bound[j]) == specificity(bound[k])
    &&& saying(bound[j], field) != saying(bound[k], field)
}

/// Differing values for a field are reported exactly if two bindings for the
/// device say different things about it at one level.
pub proof fn law_conflicts_are_reported(
    bound: Seq<BoundRevisionModel>,
    ctx: DeviceContextModel,
    field: int,
)
    requires
        0 <= field < 9,
    ensures
        conflict_noted(resolution(bound, ctx).1, field) <==> exists|j: int, k: int| #[trigger]
            at_odds(bound, ctx, field, j, k),
{
    let all = chosen(bound, ctx);
    let tag = known_tag(field);
    let ordered = stably_sorted::<&BoundRevision>(bound);
    let first = selection_notes(ordered, ctx);
    let last = requirement_notes(
        resolved_values(all, 9).sensors_required_signals,
        ctx.capabilities.signals,
    );
    lemma_selection_notes_no_conflict(ordered, ctx, field);
    lemma_requirement_notes_no_conflict(
        resolved_values(all, 9).sensors_required_signals,
        ctx.capabilities.signals,
        field,
    );
    lemma_noted_of_both(first, resolution_notes(all, 5), field);
    lemma_noted_of_both(first + resolution_notes(all, 5), last, field);
    lemma_resolution_notes(all, 5, field);
    if exists|j: int, k: int| #[trigger] at_odds(bound, ctx, field, j, k) {
        let (j, k) = choose|j: int, k: int| #[trigger] at_odds(bound, ctx, field, j, k);
        let l = specificity(bound[j]);
        let cs = said_at(all, tag, l);
        lemma_voices(bound, ctx, field, l);
        let c = choose|c: int| #[trigger] voices(bound, ctx, field, l, c, j);
        let d = choose|d: int| #[trigger] voices(bound, ctx, field, l, d, k);
        assert(cs[c].value != cs[d].value);
        assert(differs_at(all, field, l)) by {
            if c < d {
                assert(cs[c].value != cs[d].value);
            } else {
                assert(cs[d].value != cs[c].value);
            }
        }
        assert(all.len() > 0) by {
            assert(bound.contains(bound[j]));
            lemma_chosen_members(bound, ctx, bound[j]);
        }
    }
    if exists|l: int| 0 <= l < 5 && #[trigger] differs_at(all, field, l) {
        let l = choose|l: int| 0 <= l < 5 && #[trigger] differs_at(all, field, l);
        let cs = said_at(all, tag, l);
        let (c, d) = choose|c: int, d: int|
            #![trigger cs[c], cs[d]]
            0 <= c < d < cs.len() && cs[c].value != cs[d].value;
        lemma_voices(bound, ctx, field, l);
        assert(voiced(bound, ctx, field, l, c) && voiced(bound, ctx, field, l, d));
        let j = choose|j: int| #[trigger] voices(bound, ctx, field, l, c, j);
        let k = choose|k: int| #[trigger] voices(bound, ctx, field, l, d, k);
        assert(at_odds(bound, ctx, field, j, k));
    }
    if all.len() == 0 {
        let only = first.push(no_applicable_policy_diagnostic());
        assert(!conflict_noted(only, field)) by {
            if conflict_noted(only, field) {
                let i = choose|i: int|
                    0 <= i < only.len() && reports_conflict(#[trigger] only[i], field);
                if i < first.len() {
                    assert(first[i] == only[i]);
                }
            }
        }
    }
}

proof fn lemma_pin_names(bs: Seq<BoundRevisionModel>, field: Tag, level: TargetLevel)
    ensures
        pin_at(bs, field, level) matches Some(p) ==> exists|k: int|
            0 <= k < bs.len() && (#[trigger] bs[k]).revision.body.pinned_fields.contains(field) && p
                == (FieldProvenanceModel::Pinned {
                level,
                binding_id: bs[k].binding.binding_id,
                revision: revision_reference(bs[k].revision),
            }),
    decreases bs.len(),
{
    if bs.len() > 0 {
        let front = bs.drop_last();
        let n = bs.len() - 1;
        lemma_pin_names(front, field, level);
        if bs[n].revision.body.pinned_fields.contains(field) {
        } else if pin_at(front, field, level) is Some {
            let p = pin_at(front, field, level).unwrap();
            let k = choose|k: int|
                0 <= k < front.len() && (#[trigger] front[k]).revision.body.pinned_fields.contains(
                    field,
                ) && p == (FieldProvenanceModel::Pinned {
                    level,
                    binding_id: front[k].binding.binding_id,
                    revision: revision_reference(front[k].revision),
                });
            assert(bs[k] == front[k]);
        }
    }
}

/// Where the most specific level that sets a field pins it, the field is
/// attributed to a binding of that level that pins it, as pinned.
pub proof fn law_pinned_fields_are_attributed_to_a_pinning_binding(
    bound: Seq<BoundRevisionModel>,
    ctx: DeviceContextModel,
    field: int,
    i: int,
)
    requires
        0 <= field < 9,
        leads(bound, ctx, field, i),
        pinned_beside(bound, ctx, field, i),
    ensures
        exists|p: int| #[trigger]
            pinning(bound, ctx, field, p) && specificity(bound[p]) == specificity(bound[i]) && (
            resolution(bound, ctx).0.provenance[field].1 matches FieldProvenanceModel::Pinned {
                level,
                binding_id,
                revision,
            } && level == level_of(bound[i]) && binding_id == bound[p].binding.binding_id
                && revision.policy_id == bound[p].revision.body.policy_id && revision.revision
                == bound[p].revision.body.revision && revision.digest == bound[p].revision.digest),
{
    let l = specificity(bound[i]);
    let all = chosen(bound, ctx);
    let tag = known_tag(field);
    let bs = at_level(all, level_at(l));
    lemma_voices(bound, ctx, field, l);
    let c = choose|c: int| #[trigger] voices(bound, ctx, field, l, c, i);
    assert forall|m: int| l + 1 <= m < 5 implies (#[trigger] said_at(all, tag, m)).len() == 0 by {
        lemma_nothing_later(bound, ctx, field, i, m);
    }
    lemma_state_stays(all, tag, l + 1, 5);
    lemma_level_pins(bound, ctx, field, l);
    assert(field_state(all, tag, l + 1) == state_after(
        field_state(all, tag, l),
        bs,
        tag,
        level_at(l),
    ));
    lemma_pin_names(bs, tag, level_at(l));
    let q = choose|q: int| #[trigger]
        pinning(bound, ctx, field, q) && specificity(bound[q]) == specificity(bound[i]);
    assert(pinning(bound, ctx, field, q));
    assert(level_pins(bound, ctx, field, l));
    let named = pin_at(bs, tag, level_at(l)).unwrap();
    let k = choose|k: int|
        0 <= k < bs.len() && (#[trigger] bs[k]).revision.body.pinned_fields.contains(tag) && named
            == (FieldProvenanceModel::Pinned {
            level: level_at(l),
            binding_id: bs[k].binding.binding_id,
            revision: revision_reference(bs[k].revision),
        });
    assert(bs.contains(bs[k]));
    lemma_at_level_members(all, l, bs[k]);
    lemma_chosen_members(bound, ctx, bs[k]);
    let p = choose|p: int| 0 <= p < bound.len() && bound[p] == bs[k];
    assert(pinning(bound, ctx, field, p));
}

/// Whether some note has a code.
pub open spec fn code_noted(notes: Seq<PolicyDiagnosticModel>, code: DiagnosticCode) -> bool {
    exists|i: int| 0 <= i < notes.len() && (#[trigger] notes[i]).code == code
}

proof fn lemma_code_of_both(
    a: Seq<PolicyDiagnosticModel>,
    b: Seq<PolicyDiagnosticModel>,
    code: DiagnosticCode,
)
    ensures
        code_noted(a + b, code) == (code_noted(a, code) || code_noted(b, code)),
{
    let both = a + b;
    if code_noted(a, code) {
        let i = choose|i: int| 0 <= i < a.len() && (#[trigger] a[i]).code == code;
        assert(both[i] == a[i]);
    }
    if code_noted(b, code) {
        let i = choose|i: int| 0 <= i < b.len() && (#[trigger] b[i]).code == code;
        assert(both[a.len() + i] == b[i]);
    }
    if code_noted(both, code) {
        let i = choose|i: int| 0 <= i < both.len() && (#[trigger] both[i]).code == code;
        if i < a.len() {
            assert(a[i] == both[i]);
        } else {
            assert(b[i - a.len()] == both[i]);
        }
    }
}

proof fn lemma_selection_never_empty_handed(
    bound: Seq<BoundRevisionModel>,
    ctx: DeviceContextModel,
)
    ensures
        !code_noted(selection_notes(bound, ctx), DiagnosticCode::NoApplicablePolicy),
    decreases bound.len(),
{
    if bound.len() > 0 {
        let code = DiagnosticCode::NoApplicablePolicy;
        lemma_selection_never_empty_handed(bound.drop_last(), ctx);
        lemma_code_of_both(
            selection_notes(bound.drop_last(), ctx),
            binding_notes(bound.last().binding, ctx),
            code,
        );
        assert(!code_noted(binding_notes(bound.last().binding, ctx), code));
    }
}

proof fn lemma_requirements_never_empty_handed(
    required: Seq<Tag>,
    declared: Seq<CapabilitySignalModel>,
)
    ensures
        !code_noted(requirement_notes(required, declared), DiagnosticCode::NoApplicablePolicy),
    decreases required.len(),
{
    if required.len() > 0 {
        lemma_requirements_never_empty_handed(required.drop_last(), declared);
    }
}

proof fn lemma_levels_never_empty_handed(bs: Seq<BoundRevisionModel>, l: int, f: int)
    ensures
        !code_noted(level_notes(bs, l, f), DiagnosticCode::NoApplicablePolicy),
    decreases f,
{
    if f > 0 {
        let step = step_notes(
            field_state(bs, known_tag(f - 1), l),
            at_level(bs, level_at(l)),
            known_tag(f - 1),
            level_at(l),
        );
        lemma_levels_never_empty_handed(bs, l, f - 1);
        assert(!code_noted(step, DiagnosticCode::NoApplicablePolicy));
        lemma_code_of_both(level_notes(bs, l, f - 1), step, DiagnosticCode::NoApplicablePolicy);
    }
}

proof fn lemma_resolving_never_empty_handed(bs: Seq<BoundRevisionModel>, n: int)
    ensures
        !code_noted(resolution_notes(bs, n), DiagnosticCode::NoApplicablePolicy),
    decreases n,
{
    if n > 0 {
        lemma_resolving_never_empty_handed(bs, n - 1);
        lemma_levels_never_empty_handed(bs, n - 1, 9);
        lemma_code_of_both(
            resolution_notes(bs, n - 1),
            level_notes(bs, n - 1, 9),
            DiagnosticCode::NoApplicablePolicy,
        );
    }
}

/// That no policy applies is noted exactly if no binding is for the device.
pub proof fn law_devices_without_policy_are_told(
    bound: Seq<BoundRevisionModel>,
    ctx: DeviceContextModel,
)
    ensures
        code_noted(resolution(bound, ctx).1, DiagnosticCode::NoApplicablePolicy) <==> forall|j: int|
            0 <= j < bound.len() ==> !heard(#[trigger] bound[j], ctx),
{
    let code = DiagnosticCode::NoApplicablePolicy;
    let all = chosen(bound, ctx);
    let ordered = stably_sorted::<&BoundRevision>(bound);
    let first = selection_notes(ordered, ctx);
    let middle = resolution_notes(all, 5);
    let last = requirement_notes(
        resolved_values(all, 9).sensors_required_signals,
        ctx.capabilities.signals,
    );
    lemma_selection_never_empty_handed(ordered, ctx);
    lemma_resolving_never_empty_handed(all, 5);
    lemma_requirements_never_empty_handed(
        resolved_values(all, 9).sensors_required_signals,
        ctx.capabilities.signals,
    );
    lemma_code_of_both(first, middle, code);
    lemma_code_of_both(first + middle, last, code);
    if all.len() == 0 {
        let notes = first.push(no_applicable_policy_diagnostic());
        assert(notes[first.len() as int].code == code);
        assert forall|j: int| 0 <= j < bound.len() implies !heard(#[trigger] bound[j], ctx) by {
            assert(bound.contains(bound[j]));
            lemma_chosen_members(bound, ctx, bound[j]);
            if heard(bound[j], ctx) {
                assert(all.contains(bound[j]));
            }
        }
    } else {
        assert(all.contains(all[0]));
        lemma_chosen_members(bound, ctx, all[0]);
        let j = choose|j: int| 0 <= j < bound.len() && bound[j] == all[0];
        assert(heard(bound[j], ctx));
    }
}

/// Whether a note says that a required signal is not to be had.
pub open spec fn requirement_told(notes: Seq<PolicyDiagnosticModel>) -> bool {
    exists|i: int|
        0 <= i < notes.len() && (#[trigger] notes[i]).code
            == DiagnosticCode::RequiredSignalUnavailable && notes[i].field == Some(known_tag(5))
}

proof fn lemma_told_of_both(a: Seq<PolicyDiagnosticModel>, b: Seq<PolicyDiagnosticModel>)
    ensures
        requirement_told(a + b) == (requirement_told(a) || requirement_told(b)),
{
    let both = a + b;
    if requirement_told(a) {
        let i = choose|i: int|
            0 <= i < a.len() && (#[trigger] a[i]).code == DiagnosticCode::RequiredSignalUnavailable
                && a[i].field == Some(known_tag(5));
        assert(both[i] == a[i]);
    }
    if requirement_told(b) {
        let i = choose|i: int|
            0 <= i < b.len() && (#[trigger] b[i]).code == DiagnosticCode::RequiredSignalUnavailable
                && b[i].field == Some(known_tag(5));
        assert(both[a.len() + i] == b[i]);
    }
    if requirement_told(both) {
        let i = choose|i: int|
            0 <= i < both.len() && (#[trigger] both[i]).code
                == DiagnosticCode::RequiredSignalUnavailable && both[i].field == Some(known_tag(5));
        if i < a.len() {
            assert(a[i] == both[i]);
        } else {
            assert(b[i - a.len()] == both[i]);
        }
    }
}

proof fn lemma_selection_tells_no_requirement(
    bound: Seq<BoundRevisionModel>,
    ctx: DeviceContextModel,
)
    ensures
        !requirement_told(selection_notes(bound, ctx)),
    decreases bound.len(),
{
    if bound.len() > 0 {
        lemma_selection_tells_no_requirement(bound.drop_last(), ctx);
        lemma_told_of_both(
            selection_notes(bound.drop_last(), ctx),
            binding_notes(bound.last().binding, ctx),
        );
        assert(!requirement_told(binding_notes(bound.last().binding, ctx)));
    }
}

proof fn lemma_levels_tell_no_requirement(bs: Seq<BoundRevisionModel>, l: int, f: int)
    ensures
        !requirement_told(level_notes(bs, l, f)),
    decreases f,
{
    if f > 0 {
        let step = step_notes(
            field_state(bs, known_tag(f - 1), l),
            at_level(bs, level_at(l)),
            known_tag(f - 1),
            level_at(l),
        );
        lemma_levels_tell_no_requirement(bs, l, f - 1);
        assert(!requirement_told(step));
        lemma_told_of_both(level_notes(bs, l, f - 1), step);
    }
}

proof fn lemma_resolving_tells_no_requirement(bs: Seq<BoundRevisionModel>, n: int)
    ensures
        !requirement_told(resolution_notes(bs, n)),
    decreases n,
{
    if n > 0 {
        lemma_resolving_tells_no_requirement(bs, n - 1);
        lemma_levels_tell_no_requirement(bs, n - 1, 9);
        lemma_told_of_both(resolution_notes(bs, n - 1), level_notes(bs, n - 1, 9));
    }
}

proof fn lemma_requirements_told(required: Seq<Tag>, declared: Seq<CapabilitySignalModel>)
    ensures
        requirement_told(requirement_notes(required, declared)) <==> exists|i: int|
            0 <= i < required.len() && declared_state(declared, #[trigger] required[i])
                == known_tag(1),
    decreases required.len(),
{
    let notes = requirement_notes(required, declared);
    if required.len() > 0 {
        let front = required.drop_last();
        let n = required.len() - 1;
        let before = requirement_notes(front, declared);
        lemma_requirements_told(front, declared);
        assert(required.last() == required[n]);
        if declared_state(declared, required[n]) == known_tag(1) {
            assert(notes[before.len() as int].code == DiagnosticCode::RequiredSignalUnavailable);
        } else {
            assert(notes == before);
            if exists|i: int|
                0 <= i < required.len() && declared_state(declared, #[trigger] required[i])
                    == known_tag(1) {
                let i = choose|i: int|
                    0 <= i < required.len() && declared_state(declared, #[trigger] required[i])
                        == known_tag(1);
                assert(front[i] == required[i]);
            }
            if requirement_told(before) {
                let i = choose|i: int|
                    0 <= i < front.len() && declared_state(declared, #[trigger] front[i])
                        == known_tag(1);
                assert(required[i] == front[i]);
            }
        }
    } else {
        assert(notes.len() == 0);
    }
}

/// A required signal is reported as not to be had exactly if the device
/// declares one of those required unsupported. One that is merely missing,
/// redacted or unknown is not reported.
pub proof fn law_only_unsupported_requirements_are_told(
    bound: Seq<BoundRevisionModel>,
    ctx: DeviceContextModel,
)
    ensures
        ({
            let required = resolution(bound, ctx).0.values.sensors_required_signals;
            requirement_told(resolution(bound, ctx).1) <==> exists|i: int|
                0 <= i < required.len() && declared_state(
                    ctx.capabilities.signals,
                    #[trigger] required[i],
                ) == known_tag(1)
        }),
{
    let all = chosen(bound, ctx);
    let ordered = stably_sorted::<&BoundRevision>(bound);
    let first = selection_notes(ordered, ctx);
    let middle = resolution_notes(all, 5);
    let required = resolved_values(all, 9).sensors_required_signals;
    let last = requirement_notes(required, ctx.capabilities.signals);
    lemma_selection_tells_no_requirement(ordered, ctx);
    lemma_resolving_tells_no_requirement(all, 5);
    lemma_requirements_told(required, ctx.capabilities.signals);
    lemma_told_of_both(first, middle);
    lemma_told_of_both(first + middle, last);
    if all.len() == 0 {
        let only = first.push(no_applicable_policy_diagnostic());
        assert(!requirement_told(only)) by {
            if requirement_told(only) {
                let i = choose|i: int|
                    0 <= i < only.len() && (#[trigger] only[i]).code
                        == DiagnosticCode::RequiredSignalUnavailable && only[i].field == Some(
                        known_tag(5),
                    );
                if i < first.len() {
                    assert(first[i] == only[i]);
                }
            }
        }
        assert forall|j: int| !#[trigger] speaks(bound, ctx, 5, j) by {
            if speaks(bound, ctx, 5, j) {
                assert(bound.contains(bound[j]));
                lemma_chosen_members(bound, ctx, bound[j]);
                assert(all.contains(bound[j]));
            }
        }
        law_unset_fields_take_the_baseline(bound, ctx, 5);
        assert(required.len() == 0);
    }
}

proof fn lemma_noted_at_level(
    bs: Seq<BoundRevisionModel>,
    l: int,
    f: int,
    field: int,
    d: PolicyDiagnosticModel,
)
    requires
        0 <= field < f <= 9,
        step_notes(
            field_state(bs, known_tag(field), l),
            at_level(bs, level_at(l)),
            known_tag(field),
            level_at(l),
        ).contains(d),
    ensures
        level_notes(bs, l, f).contains(d),
    decreases f,
{
    let before = level_notes(bs, l, f - 1);
    let step = step_notes(
        field_state(bs, known_tag(f - 1), l),
        at_level(bs, level_at(l)),
        known_tag(f - 1),
        level_at(l),
    );
    let all = before + step;
    if field == f - 1 {
        let i = choose|i: int| 0 <= i < step.len() && step[i] == d;
        assert(all[before.len() + i] == d);
    } else {
        lemma_noted_at_level(bs, l, f - 1, field, d);
        let i = choose|i: int| 0 <= i < before.len() && before[i] == d;
        assert(all[i] == d);
    }
}

proof fn lemma_noted_in_resolution(
    bs: Seq<BoundRevisionModel>,
    n: int,
    l: int,
    d: PolicyDiagnosticModel,
)
    requires
        0 <= l < n,
        level_notes(bs, l, 9).contains(d),
    ensures
        resolution_notes(bs, n).contains(d),
    decreases n,
{
    let before = resolution_notes(bs, n - 1);
    let level = level_notes(bs, n - 1, 9);
    let all = before + level;
    if l == n - 1 {
        let i = choose|i: int| 0 <= i < level.len() && level[i] == d;
        assert(all[before.len() + i] == d);
    } else {
        lemma_noted_in_resolution(bs, n - 1, l, d);
        let i = choose|i: int| 0 <= i < before.len() && before[i] == d;
        assert(all[i] == d);
    }
}

/// Whether a note names a binding and the revision it carries.
pub open spec fn names(d: PolicyDiagnosticModel, b: BoundRevisionModel) -> bool {
    d.bindings.contains(b.binding.binding_id) && exists|i: int|
        0 <= i < d.revisions.len() && (#[trigger] d.revisions[i]).policy_id
            == b.revision.body.policy_id && d.revisions[i].revision == b.revision.body.revision
            && d.revisions[i].digest == b.revision.digest
}

/// The report of a conflict is an error, and names every binding of the level
/// that sets the field, with the revision it carries.
pub proof fn law_conflicts_name_everyone_involved(
    bound: Seq<BoundRevisionModel>,
    ctx: DeviceContextModel,
    field: int,
    j: int,
    k: int,
) -> (d: PolicyDiagnosticModel)
    requires
        0 <= field < 9,
        at_odds(bound, ctx, field, j, k),
    ensures
        resolution(bound, ctx).1.contains(d),
        reports_conflict(d, field),
        d.severity is Error,
        forall|m: int| #[trigger]
            speaks(bound, ctx, field, m) && specificity(bound[m]) == specificity(bound[j]) ==> names(
                d,
                bound[m],
            ),
{
    let all = chosen(bound, ctx);
    let tag = known_tag(field);
    let l = specificity(bound[j]);
    let cs = said_at(all, tag, l);
    let d = super::resolve::conflict_diagnostic(cs, tag, level_at(l));
    lemma_voices(bound, ctx, field, l);
    let a = choose|c: int| #[trigger] voices(bound, ctx, field, l, c, j);
    let b = choose|c: int| #[trigger] voices(bound, ctx, field, l, c, k);
    assert(cs[a].value != cs[0].value || cs[b].value != cs[0].value);
    assert(super::resolve::differing(cs));
    let step = step_notes(
        field_state(all, tag, l),
        at_level(all, level_at(l)),
        tag,
        level_at(l),
    );
    assert(step[0] == d);
    lemma_noted_at_level(all, l, 9, field, d);
    lemma_noted_in_resolution(all, 5, l, d);
    let first = selection_notes(stably_sorted::<&BoundRevision>(bound), ctx);
    let middle = resolution_notes(all, 5);
    let notes = resolution(bound, ctx).1;
    assert(all.len() > 0) by {
        assert(bound.contains(bound[j]));
        lemma_chosen_members(bound, ctx, bound[j]);
    }
    let i = choose|i: int| 0 <= i < middle.len() && middle[i] == d;
    assert(notes[first.len() + i] == d);
    assert forall|m: int| #[trigger]
        speaks(bound, ctx, field, m) && specificity(bound[m]) == l implies names(d, bound[m]) by {
        let c = choose|c: int| #[trigger] voices(bound, ctx, field, l, c, m);
        assert(d.bindings[c] == bound[m].binding.binding_id);
        assert(d.revisions[c] == revision_reference(bound[m].revision));
        assert(d.revisions[c].digest == bound[m].revision.digest);
    }
    d
}

/// Whether a content is looser on a field than another one that sets it: it
/// allows what the other forbids, redacts less, or grants a longer grace.
pub open spec fn looser(field: int, c: PolicyContentModel, p: PolicyContentModel) -> bool {
    if field == 0 {
        c.collection.longitudinal_aggregation_allowed == Some(true)
            && p.collection.longitudinal_aggregation_allowed == Some(false)
    } else if field == 1 {
        c.egress.cloud_sync_allowed == Some(true) && p.egress.cloud_sync_allowed == Some(false)
    } else if field == 2 {
        c.egress.redaction_profile == Some(RedactionProfile::Standard) && p.egress.redaction_profile
            == Some(RedactionProfile::Strict)
    } else {
        field == 8 && c.cache.offline_grace_seconds.unwrap()
            > p.cache.offline_grace_seconds.unwrap()
    }
}

/// Where a level pins whether to aggregate or sync, how to redact or how long to
/// grant grace, a more specific level that says only looser things is reported
/// as an error.
pub proof fn law_loosening_a_pin_is_reported(
    bound: Seq<BoundRevisionModel>,
    ctx: DeviceContextModel,
    field: int,
    p: int,
    j: int,
) -> (d: PolicyDiagnosticModel)
    requires
        field == 0 || field == 1 || field == 2 || field == 8,
        speaks(bound, ctx, field, p),
        pinned_beside(bound, ctx, field, p),
        speaks(bound, ctx, field, j),
        specificity(bound[j]) > specificity(bound[p]),
        forall|m: int| #[trigger]
            speaks(bound, ctx, field, m) && specificity(bound[m]) == specificity(bound[j])
                ==> looser(
                field,
                bound[m].revision.body.content,
                bound[p].revision.body.content,
            ),
    ensures
        resolution(bound, ctx).1.contains(d),
        d.code == DiagnosticCode::PinViolation,
        d.severity is Error,
        d.field == Some(known_tag(field)),
{
    let all = chosen(bound, ctx);
    let tag = known_tag(field);
    let lp = specificity(bound[p]);
    let lj = specificity(bound[j]);
    let ps = said_at(all, tag, lp);
    let cs = said_at(all, tag, lj);
    let st = field_state(all, tag, lj);
    lemma_weighed(bound, ctx, field, lj);
    lemma_voices(bound, ctx, field, lp);
    lemma_voices(bound, ctx, field, lj);
    let a = choose|c: int| #[trigger] voices(bound, ctx, field, lp, c, p);
    let b = choose|c: int| #[trigger] voices(bound, ctx, field, lj, c, j);
    lemma_said_shapes(all, field, lp);
    lemma_said_shapes(all, field, lj);
    lemma_merged_weight(ps, field);
    lemma_merged_weight(cs, field);
    lemma_level_pins(bound, ctx, field, lp);
    let q = choose|q: int| #[trigger]
        pinning(bound, ctx, field, q) && specificity(bound[q]) == specificity(bound[p]);
    assert(pinning(bound, ctx, field, q));
    assert(fixed_at(bound, ctx, field, lp));
    assert(weight(merged_value(ps)) >= weight(ps[a].value));
    let c = choose|c: int| 0 <= c < cs.len() && merged_value(cs) == (#[trigger] cs[c]).value;
    assert(voiced(bound, ctx, field, lj, c));
    let m = choose|m: int| #[trigger] voices(bound, ctx, field, lj, c, m);
    assert(speaks(bound, ctx, field, m));
    assert(weight(cs[c].value) < weight(ps[a].value));
    let f = st.floor.unwrap();
    assert(weight(f.value) >= weight_at(bound, ctx, field, lp));
    assert(level_value(st, cs, tag) == merged_value(cs));
    assert(loosens_pin(st, cs, tag));
    let d = super::resolve::pin_violation_diagnostic(st, cs, tag, level_at(lj));
    let step = step_notes(st, at_level(all, level_at(lj)), tag, level_at(lj));
    assert(step[step.len() - 1] == d);
    lemma_noted_at_level(all, lj, 9, field, d);
    lemma_noted_in_resolution(all, 5, lj, d);
    let first = selection_notes(stably_sorted::<&BoundRevision>(bound), ctx);
    let middle = resolution_notes(all, 5);
    let notes = resolution(bound, ctx).1;
    assert(all.len() > 0) by {
        assert(bound.contains(bound[j]));
        lemma_chosen_members(bound, ctx, bound[j]);
    }
    let i = choose|i: int| 0 <= i < middle.len() && middle[i] == d;
    assert(notes[first.len() + i] == d);
    d
}

/// Whether some note reports that a pin on a field would be loosened.
pub open spec fn violation_noted(notes: Seq<PolicyDiagnosticModel>, field: int) -> bool {
    exists|i: int|
        0 <= i < notes.len() && (#[trigger] notes[i]).code == DiagnosticCode::PinViolation
            && notes[i].field == Some(known_tag(field))
}

proof fn lemma_violation_of_both(
    a: Seq<PolicyDiagnosticModel>,
    b: Seq<PolicyDiagnosticModel>,
    field: int,
)
    requires
        !violation_noted(a, field),
        !violation_noted(b, field),
    ensures
        !violation_noted(a + b, field),
{
    let both = a + b;
    if violation_noted(both, field) {
        let i = choose|i: int|
            0 <= i < both.len() && (#[trigger] both[i]).code == DiagnosticCode::PinViolation
                && both[i].field == Some(known_tag(field));
        if i < a.len() {
            assert(a[i] == both[i]);
        } else {
            assert(b[i - a.len()] == both[i]);
        }
    }
}

proof fn lemma_selection_violates_nothing(
    bound: Seq<BoundRevisionModel>,
    ctx: DeviceContextModel,
    field: int,
)
    ensures
        !violation_noted(selection_notes(bound, ctx), field),
    decreases bound.len(),
{
    if bound.len() > 0 {
        lemma_selection_violates_nothing(bound.drop_last(), ctx, field);
        assert(!violation_noted(binding_notes(bound.last().binding, ctx), field));
        lemma_violation_of_both(
            selection_notes(bound.drop_last(), ctx),
            binding_notes(bound.last().binding, ctx),
            field,
        );
    }
}

proof fn lemma_requirements_violate_nothing(
    required: Seq<Tag>,
    declared: Seq<CapabilitySignalModel>,
    field: int,
)
    ensures
        !violation_noted(requirement_notes(required, declared), field),
    decreases required.len(),
{
    if required.len() > 0 {
        lemma_requirements_violate_nothing(required.drop_last(), declared, field);
    }
}

proof fn lemma_unpinned_levels_violate_nothing(
    bound: Seq<BoundRevisionModel>,
    ctx: DeviceContextModel,
    l: int,
    f: int,
    field: int,
)
    requires
        0 <= l < 5,
        0 <= f <= 9,
        0 <= field < 9,
        unpinned(bound, ctx, field),
    ensures
        !violation_noted(level_notes(chosen(bound, ctx), l, f), field),
    decreases f,
{
    if f > 0 {
        let bs = chosen(bound, ctx);
        let step = step_notes(
            field_state(bs, known_tag(f - 1), l),
            at_level(bs, level_at(l)),
            known_tag(f - 1),
            level_at(l),
        );
        lemma_unpinned_levels_violate_nothing(bound, ctx, l, f - 1, field);
        lemma_unpinned_floor(bound, ctx, field, l);
        assert(!violation_noted(step, field)) by {
            assert(known_tag(f - 1).index == f - 1 && known_tag(field).index == field);
        }
        lemma_violation_of_both(level_notes(bs, l, f - 1), step, field);
    }
}

proof fn lemma_unpinned_resolving_violates_nothing(
    bound: Seq<BoundRevisionModel>,
    ctx: DeviceContextModel,
    n: int,
    field: int,
)
    requires
        0 <= n <= 5,
        0 <= field < 9,
        unpinned(bound, ctx, field),
    ensures
        !violation_noted(resolution_notes(chosen(bound, ctx), n), field),
    decreases n,
{
    if n > 0 {
        lemma_unpinned_resolving_violates_nothing(bound, ctx, n - 1, field);
        lemma_unpinned_levels_violate_nothing(bound, ctx, n - 1, 9, field);
        lemma_violation_of_both(
            resolution_notes(chosen(bound, ctx), n - 1),
            level_notes(chosen(bound, ctx), n - 1, 9),
            field,
        );
    }
}

/// Where nothing that is for the device pins a field, no violation is reported
/// for it.
pub proof fn law_without_a_pin_nothing_is_violated(
    bound: Seq<BoundRevisionModel>,
    ctx: DeviceContextModel,
    field: int,
)
    requires
        0 <= field < 9,
        unpinned(bound, ctx, field),
    ensures
        !violation_noted(resolution(bound, ctx).1, field),
{
    let all = chosen(bound, ctx);
    let ordered = stably_sorted::<&BoundRevision>(bound);
    let first = selection_notes(ordered, ctx);
    let required = resolved_values(all, 9).sensors_required_signals;
    lemma_selection_violates_nothing(ordered, ctx, field);
    lemma_unpinned_resolving_violates_nothing(bound, ctx, 5, field);
    lemma_requirements_violate_nothing(required, ctx.capabilities.signals, field);
    lemma_violation_of_both(first, resolution_notes(all, 5), field);
    lemma_violation_of_both(
        first + resolution_notes(all, 5),
        requirement_notes(required, ctx.capabilities.signals),
        field,
    );
    if all.len() == 0 {
        let only = first.push(no_applicable_policy_diagnostic());
        assert(!violation_noted(only, field)) by {
            if violation_noted(only, field) {
                let i = choose|i: int|
                    0 <= i < only.len() && (#[trigger] only[i]).code == DiagnosticCode::PinViolation
                        && only[i].field == Some(known_tag(field));
                if i < first.len() {
                    assert(first[i] == only[i]);
                }
            }
        }
    }
}

} // verus!

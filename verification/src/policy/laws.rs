//! What holds of policy content and of resolution as a whole.
use vstd::prelude::*;

use super::content::{
    baseline_values, first_rule, normalized_signals, EnforcementRule, EnforcementRuleModel,
    PolicyContentModel, SensorScopeModel,
};
use super::field::{
    at_least_as_strict, combined_rule, field_met, field_of, rule_covers, rule_merged, rules_cover,
    rules_merged, FieldModel, PolicyFieldId,
};
use super::resolve::{
    applicable, at_level, candidates, contributions, field_state, level_at, level_contribution,
    level_value, loosens_pin,
    merged_value, no_applicable_policy_diagnostic, no_state, pin_at, requirement_notes, resolution,
    resolved_values, state_after, unsupported_requirement_diagnostic, CandidateModel,
    FieldProvenanceModel, FieldStateModel,
};
use super::revision::{
    canonical_form, pin_diagnostics, publication, published_body, PolicyDraftModel,
    PolicyRevisionRefModel,
};
use super::target::{BoundRevision, BoundRevisionModel, DeviceContextModel};
use crate::capabilities::{declared_state, CapabilitySignalModel, SignalClass};
use crate::code::Coded;
use crate::evidence::Verdict;
use crate::json::lemma_json_string_injective;
use crate::model::{deep_seq, known_tag, Tag};
use crate::order::{
    ascending, key_before, keys_distinguish, law_stable_sort_ignores_input_order,
    law_stable_sort_is_sorted_permutation, lemma_ascending_unique, lemma_key_asymmetric,
    lemma_key_total, lemma_key_transitive, lemma_squeezed_ascending, lemma_squeezed_contains,
    listing, stably_sorted, tag_key, Sortable,
};

verus! {

/// Whether no two different classes of a collection are written alike.
pub open spec fn written_apart(classes: Seq<Tag>) -> bool {
    forall|i: int, j: int|
        #![trigger classes[i], classes[j]]
        0 <= i < classes.len() && 0 <= j < classes.len() && SignalClass::wire_text(classes[i])
            == SignalClass::wire_text(classes[j]) ==> classes[i] == classes[j]
}

/// Signal classes that are written apart are told apart by their sort key.
proof fn lemma_signal_keys_distinguish(s: Seq<Tag>)
    requires
        written_apart(s),
    ensures
        keys_distinguish::<SignalClass>(s),
{
    assert forall|i: int, j: int|
        #![trigger s[i], s[j]]
        0 <= i < s.len() && 0 <= j < s.len() && SignalClass::sort_key(s[i])
            == SignalClass::sort_key(s[j]) implies s[i] == s[j] by {
        lemma_json_string_injective(SignalClass::wire_text(s[i]), SignalClass::wire_text(s[j]));
    }
}

pub(crate) proof fn lemma_written_apart(a: Seq<Tag>, b: Seq<Tag>)
    requires
        forall|x: Tag| #[trigger] a.contains(x) == b.contains(x),
        written_apart(a),
    ensures
        written_apart(b),
{
    assert forall|i: int, j: int|
        #![trigger b[i], b[j]]
        0 <= i < b.len() && 0 <= j < b.len() && SignalClass::wire_text(b[i])
            == SignalClass::wire_text(b[j]) implies b[i] == b[j] by {
        assert(b.contains(b[i]) && b.contains(b[j]));
        assert(a.contains(b[i]) && a.contains(b[j]));
        let k = choose|k: int| 0 <= k < a.len() && a[k] == b[i];
        let l = choose|l: int| 0 <= l < a.len() && a[l] == b[j];
        assert(a[k] == a[l]);
    }
}

pub(crate) proof fn lemma_normalized(s: Seq<Tag>)
    requires
        written_apart(s),
    ensures
        ascending::<SignalClass>(normalized_signals(s)),
        normalized_signals(s).to_set() == s.to_set(),
{
    let sorted = stably_sorted::<SignalClass>(s);
    law_stable_sort_is_sorted_permutation::<SignalClass>(s);
    lemma_same_members(sorted, s);
    lemma_written_apart(s, sorted);
    lemma_signal_keys_distinguish(sorted);
    lemma_squeezed_ascending::<SignalClass>(sorted);
    assert forall|t: Tag| normalized_signals(s).to_set().contains(t) == s.to_set().contains(t) by {
        lemma_squeezed_contains(sorted, t);
    }
    assert(normalized_signals(s).to_set() =~= s.to_set());
}

/// Sequences with the same multiset have the same members.
pub(crate) proof fn lemma_same_members<V>(a: Seq<V>, b: Seq<V>)
    requires
        a.to_multiset() == b.to_multiset(),
    ensures
        forall|x: V| #[trigger] a.contains(x) == b.contains(x),
{
    broadcast use vstd::seq_lib::group_to_multiset_ensures;

    assert forall|x: V| #[trigger] a.contains(x) == b.contains(x) by {
        assert(a.contains(x) == (a.to_multiset().count(x) > 0));
        assert(b.contains(x) == (b.to_multiset().count(x) > 0));
    }
}

/// Collections of signal classes with the same members take the same
/// canonical form, whatever order they were written in and however often a
/// class occurs, as long as no two different ones are written alike.
pub proof fn law_normalized_signals_depend_on_members_only(a: Seq<Tag>, b: Seq<Tag>)
    requires
        a.to_set() == b.to_set(),
        written_apart(a),
    ensures
        normalized_signals(a) == normalized_signals(b),
{
    assert forall|x: Tag| #[trigger] a.contains(x) == b.contains(x) by {
        assert(a.to_set().contains(x) == a.contains(x));
        assert(b.to_set().contains(x) == b.contains(x));
    }
    lemma_written_apart(a, b);
    lemma_normalized(a);
    lemma_normalized(b);
    lemma_ascending_unique::<SignalClass>(normalized_signals(a), normalized_signals(b));
}

/// A draft with other required signals in the place of its own.
pub open spec fn requiring(draft: PolicyDraftModel, signals: Seq<Tag>) -> PolicyDraftModel {
    PolicyDraftModel {
        content: PolicyContentModel {
            sensors: SensorScopeModel {
                required_signals: Some(signals),
                ..draft.content.sensors
            },
            ..draft.content
        },
        ..draft
    }
}

proof fn lemma_pins_ignore_signals(draft: PolicyDraftModel, a: Seq<Tag>, b: Seq<Tag>, n: int)
    requires
        n <= listing::<PolicyFieldId>(draft.pinned_fields).len(),
    ensures
        pin_diagnostics(
            requiring(draft, a).content,
            listing::<PolicyFieldId>(draft.pinned_fields),
            n,
        ) == pin_diagnostics(
            requiring(draft, b).content,
            listing::<PolicyFieldId>(draft.pinned_fields),
            n,
        ),
    decreases n,
{
    if n > 0 {
        lemma_pins_ignore_signals(draft, a, b, n - 1);
    }
}

/// Drafts that require the same signals are published as the same revision,
/// byte for byte, whatever order the signals were listed in and however often
/// one is repeated, as long as no two different ones are written alike.
pub proof fn law_publication_ignores_signal_order(
    draft: PolicyDraftModel,
    a: Seq<Tag>,
    b: Seq<Tag>,
    published_at: Seq<char>,
)
    requires
        a.to_set() == b.to_set(),
        written_apart(a),
    ensures
        publication(requiring(draft, a), published_at) == publication(
            requiring(draft, b),
            published_at,
        ),
        canonical_form(published_body(requiring(draft, a), published_at)) == canonical_form(
            published_body(requiring(draft, b), published_at),
        ),
{
    law_normalized_signals_depend_on_members_only(a, b);
    lemma_pins_ignore_signals(
        draft,
        a,
        b,
        listing::<PolicyFieldId>(draft.pinned_fields).len() as int,
    );
    assert(published_body(requiring(draft, a), published_at) =~= published_body(
        requiring(draft, b),
        published_at,
    ));
}

/// Normalizing keeps exactly the classes that occur.
pub(crate) proof fn lemma_normalized_members(s: Seq<Tag>, t: Tag)
    ensures
        normalized_signals(s).contains(t) == s.contains(t),
{
    let sorted = stably_sorted::<SignalClass>(s);
    law_stable_sort_is_sorted_permutation::<SignalClass>(s);
    lemma_same_members(sorted, s);
    lemma_squeezed_contains(sorted, t);
}

/// Whether two values are values of one field.
pub open spec fn same_shape(a: FieldModel, b: FieldModel) -> bool {
    match (a, b) {
        (FieldModel::Bool(_), FieldModel::Bool(_)) => true,
        (FieldModel::RedactionProfile(_), FieldModel::RedactionProfile(_)) => true,
        (FieldModel::AllowedContent(_), FieldModel::AllowedContent(_)) => true,
        (FieldModel::SensorsDisabled(_), FieldModel::SensorsDisabled(_)) => true,
        (FieldModel::RequiredSignals(_), FieldModel::RequiredSignals(_)) => true,
        (FieldModel::EnforcementRules(_), FieldModel::EnforcementRules(_)) => true,
        (FieldModel::CacheMaxAgeByRisk(_), FieldModel::CacheMaxAgeByRisk(_)) => true,
        (FieldModel::CacheOfflineGraceSeconds(_), FieldModel::CacheOfflineGraceSeconds(_)) => true,
        _ => false,
    }
}

/// Every key is at least that of `k`, and none equals it.
proof fn lemma_class_absent(rules: Seq<EnforcementRuleModel>, class: Tag)
    requires
        ascending::<EnforcementRule>(rules),
        rules.len() > 0 ==> rules[0].action_class != class && !key_before(
            tag_key(rules[0].action_class),
            tag_key(class),
        ),
    ensures
        first_rule(rules, class) is None,
    decreases rules.len(),
{
    if rules.len() > 0 {
        lemma_key_total(tag_key(rules[0].action_class), tag_key(class));
        let rest = rules.drop_first();
        lemma_rest_ascending(rules);
        if rest.len() > 0 {
            assert(rest[0] == rules[1]);
            assert(key_before(tag_key(rules[0].action_class), tag_key(rules[1].action_class)));
            lemma_key_transitive(
                tag_key(class),
                tag_key(rules[0].action_class),
                tag_key(rules[1].action_class),
            );
            lemma_key_asymmetric(tag_key(class), tag_key(rules[1].action_class));
        }
        lemma_class_absent(rest, class);
    }
}

pub(crate) proof fn lemma_rest_ascending(rules: Seq<EnforcementRuleModel>)
    requires
        ascending::<EnforcementRule>(rules),
        rules.len() > 0,
    ensures
        ascending::<EnforcementRule>(rules.drop_first()),
{
    let rest = rules.drop_first();
    assert forall|i: int, j: int|
        #![trigger rest[i], rest[j]]
        0 <= i < j < rest.len() implies key_before(
        EnforcementRule::sort_key(rest[i]),
        EnforcementRule::sort_key(rest[j]),
    ) by {
        assert(rest[i] == rules[i + 1] && rest[j] == rules[j + 1]);
    }
}

/// What merging one rule does to the rule of each class.
pub(crate) proof fn lemma_rule_merged(rules: Seq<EnforcementRuleModel>, rule: EnforcementRuleModel, class: Tag)
    requires
        ascending::<EnforcementRule>(rules),
    ensures
        ascending::<EnforcementRule>(rule_merged(rules, rule)),
        rule_merged(rules, rule).len() > 0,
        rules.len() > 0 ==> rule_merged(rules, rule)[0].action_class == rules[0].action_class
            || rule_merged(rules, rule)[0].action_class == rule.action_class,
        rules.len() == 0 ==> rule_merged(rules, rule)[0].action_class == rule.action_class,
        first_rule(rule_merged(rules, rule), class) == (if class == rule.action_class {
            match first_rule(rules, class) {
                Some(m) => Some(combined_rule(m, rule)),
                None => Some(rule),
            }
        } else {
            first_rule(rules, class)
        }),
    decreases rules.len(),
{
    let merged = rule_merged(rules, rule);
    if rules.len() == 0 {
        assert(merged.drop_first() =~= Seq::<EnforcementRuleModel>::empty());
        assert(first_rule(merged.drop_first(), class) is None);
    } else {
        let head = rules[0];
        let rest = rules.drop_first();
        lemma_rest_ascending(rules);
        if head.action_class == rule.action_class {
            assert(merged.drop_first() =~= rest);
            assert forall|i: int, j: int|
                #![trigger merged[i], merged[j]]
                0 <= i < j < merged.len() implies key_before(
                EnforcementRule::sort_key(merged[i]),
                EnforcementRule::sort_key(merged[j]),
            ) by {
                assert(merged[j] == rules[j]);
                assert(merged[i].action_class == rules[i].action_class);
            }
        } else if key_before(tag_key(head.action_class), tag_key(rule.action_class)) {
            lemma_rule_merged(rest, rule, class);
            let tail = rule_merged(rest, rule);
            assert(merged.drop_first() =~= tail);
            assert forall|i: int, j: int|
                #![trigger merged[i], merged[j]]
                0 <= i < j < merged.len() implies key_before(
                EnforcementRule::sort_key(merged[i]),
                EnforcementRule::sort_key(merged[j]),
            ) by {
                if i > 0 {
                    assert(merged[i] == tail[i - 1] && merged[j] == tail[j - 1]);
                } else {
                    assert(merged[j] == tail[j - 1]);
                    assert(key_before(tag_key(head.action_class), tag_key(tail[0].action_class)))
                        by {
                        if rest.len() > 0 {
                            assert(rest[0] == rules[1]);
                        }
                    }
                    if j > 1 {
                        lemma_key_transitive(
                            tag_key(head.action_class),
                            tag_key(tail[0].action_class),
                            tag_key(tail[j - 1].action_class),
                        );
                    }
                }
            }
        } else {
            lemma_key_total(tag_key(head.action_class), tag_key(rule.action_class));
            assert(merged.drop_first() =~= rules);
            lemma_class_absent(rules, rule.action_class);
            assert forall|i: int, j: int|
                #![trigger merged[i], merged[j]]
                0 <= i < j < merged.len() implies key_before(
                EnforcementRule::sort_key(merged[i]),
                EnforcementRule::sort_key(merged[j]),
            ) by {
                assert(merged[j] == rules[j - 1]);
                if i > 0 {
                    assert(merged[i] == rules[i - 1]);
                } else if j > 1 {
                    assert(key_before(
                        tag_key(rules[0].action_class),
                        tag_key(rules[j - 1].action_class),
                    ));
                    lemma_key_transitive(
                        tag_key(rule.action_class),
                        tag_key(head.action_class),
                        tag_key(rules[j - 1].action_class),
                    );
                }
            }
        }
    }
}

/// Merged rules have one rule per action class, ascending, and each is at
/// least as strict as every rule of its class that went in.
pub proof fn law_merged_rules_are_canonical_and_strict(rules: Seq<EnforcementRuleModel>)
    ensures
        ascending::<EnforcementRule>(rules_merged(rules)),
        rules_cover(rules_merged(rules), rules),
    decreases rules.len(),
{
    if rules.len() > 0 {
        let front = rules.drop_last();
        let last = rules.last();
        law_merged_rules_are_canonical_and_strict(front);
        let acc = rules_merged(front);
        lemma_rule_merged(acc, last, last.action_class);
        assert forall|i: int| 0 <= i < rules.len() implies (first_rule(
            rules_merged(rules),
            (#[trigger] rules[i]).action_class,
        ) matches Some(rule) && rule_covers(rule, rules[i])) by {
            lemma_rule_merged(acc, last, rules[i].action_class);
            if i < front.len() {
                assert(front[i] == rules[i]);
                assert(first_rule(acc, front[i].action_class) is Some);
                let m = first_rule(acc, front[i].action_class).unwrap();
                assert(rule_covers(m, front[i]));
                lemma_combined_covers(m, last, front[i]);
            } else {
                match first_rule(acc, last.action_class) {
                    Some(m) => {
                        lemma_combined_covers(m, last, last);
                    },
                    None => {},
                }
                assert(rules[i] == last);
            }
        }
    }
}

proof fn lemma_combined_covers(
    m: EnforcementRuleModel,
    last: EnforcementRuleModel,
    r: EnforcementRuleModel,
)
    ensures
        rule_covers(m, r) ==> rule_covers(combined_rule(m, last), r),
        rule_covers(combined_rule(m, last), last),
{
    let c = combined_rule(m, last);
    assert forall|v: Verdict| (#[trigger] c.outcomes.outcome(v)).rank() >= last.outcomes.outcome(
        v,
    ).rank() by {}
    if rule_covers(m, r) {
        assert forall|v: Verdict| (#[trigger] c.outcomes.outcome(v)).rank() >= r.outcomes.outcome(
            v,
        ).rank() by {
            assert(m.outcomes.outcome(v).rank() >= r.outcomes.outcome(v).rank());
        }
    }
}

/// The common value of two values of a field is at least as strict as each of
/// them.
pub proof fn law_meet_is_at_least_as_strict(a: FieldModel, b: FieldModel)
    requires
        same_shape(a, b),
    ensures
        same_shape(field_met(a, b), a),
        at_least_as_strict(field_met(a, b), a),
        at_least_as_strict(field_met(a, b), b),
{
    match (a, b) {
        (FieldModel::RequiredSignals(x), FieldModel::RequiredSignals(y)) => {
            let both = x + y;
            assert forall|i: int| 0 <= i < x.len() implies normalized_signals(both).contains(
                #[trigger] x[i],
            ) by {
                lemma_normalized_members(both, x[i]);
                assert(both[i] == x[i]);
            }
            assert forall|i: int| 0 <= i < y.len() implies normalized_signals(both).contains(
                #[trigger] y[i],
            ) by {
                lemma_normalized_members(both, y[i]);
                assert(both[x.len() + i] == y[i]);
            }
        },
        (FieldModel::EnforcementRules(x), FieldModel::EnforcementRules(y)) => {
            let both = x + y;
            law_merged_rules_are_canonical_and_strict(both);
            assert forall|i: int| 0 <= i < x.len() implies (first_rule(
                rules_merged(both),
                (#[trigger] x[i]).action_class,
            ) matches Some(rule) && rule_covers(rule, x[i])) by {
                assert(both[i] == x[i]);
            }
            assert forall|i: int| 0 <= i < y.len() implies (first_rule(
                rules_merged(both),
                (#[trigger] y[i]).action_class,
            ) matches Some(rule) && rule_covers(rule, y[i])) by {
                assert(both[x.len() + i] == y[i]);
            }
        },
        _ => {},
    }
}

pub(crate) proof fn lemma_first_rule_member(rules: Seq<EnforcementRuleModel>, class: Tag)
    ensures
        first_rule(rules, class) matches Some(rule) ==> rule.action_class == class && exists|i: int|
            0 <= i < rules.len() && rules[i] == rule,
    decreases rules.len(),
{
    if rules.len() > 0 {
        if rules[0].action_class == class {
            assert(rules[0] == first_rule(rules, class).unwrap());
        } else {
            let rest = rules.drop_first();
            lemma_first_rule_member(rest, class);
            if first_rule(rest, class) is Some {
                let rule = first_rule(rest, class).unwrap();
                let i = choose|i: int| 0 <= i < rest.len() && rest[i] == rule;
                assert(rules[i + 1] == rule);
            }
        }
    }
}

/// Strictness is transitive among the values of a field.
pub proof fn law_strictness_is_transitive(a: FieldModel, b: FieldModel, c: FieldModel)
    requires
        same_shape(a, b),
        same_shape(b, c),
        at_least_as_strict(a, b),
        at_least_as_strict(b, c),
    ensures
        at_least_as_strict(a, c),
{
    match (a, b, c) {
        (
            FieldModel::RequiredSignals(x),
            FieldModel::RequiredSignals(y),
            FieldModel::RequiredSignals(z),
        ) => {
            assert forall|i: int| 0 <= i < z.len() implies x.contains(#[trigger] z[i]) by {
                assert(y.contains(z[i]));
                let k = choose|k: int| 0 <= k < y.len() && y[k] == z[i];
                assert(x.contains(y[k]));
            }
        },
        (
            FieldModel::EnforcementRules(x),
            FieldModel::EnforcementRules(y),
            FieldModel::EnforcementRules(z),
        ) => {
            assert forall|i: int| 0 <= i < z.len() implies (first_rule(
                x,
                (#[trigger] z[i]).action_class,
            ) matches Some(rule) && rule_covers(rule, z[i])) by {
                let m = first_rule(y, z[i].action_class).unwrap();
                lemma_first_rule_member(y, z[i].action_class);
                let k = choose|k: int| 0 <= k < y.len() && y[k] == m;
                let top = first_rule(x, y[k].action_class).unwrap();
                assert(rule_covers(top, y[k]));
                assert forall|v: Verdict| (#[trigger] top.outcomes.outcome(v)).rank()
                    >= z[i].outcomes.outcome(v).rank() by {
                    assert(m.outcomes.outcome(v).rank() >= z[i].outcomes.outcome(v).rank());
                }
            }
        },
        _ => {},
    }
}

/// Whether a value is one that a field can have.
pub open spec fn has_shape(field: Tag, value: FieldModel) -> bool {
    match value {
        FieldModel::Bool(_) => field.index == 0 || field.index == 1,
        FieldModel::RedactionProfile(_) => field.index == 2,
        FieldModel::AllowedContent(_) => field.index == 3,
        FieldModel::SensorsDisabled(_) => field.index == 4,
        FieldModel::RequiredSignals(_) => field.index == 5,
        FieldModel::EnforcementRules(_) => field.index == 6,
        FieldModel::CacheMaxAgeByRisk(_) => field.index == 7,
        FieldModel::CacheOfflineGraceSeconds(_) => field.index == 8,
    }
}

/// Whether a value keeps to a pinned one: it is the same, or at least as
/// strict.
pub open spec fn keeps(value: FieldModel, pinned: FieldModel) -> bool {
    value == pinned || at_least_as_strict(value, pinned)
}

pub(crate) proof fn lemma_candidate_shapes(bound: Seq<BoundRevisionModel>, field: Tag)
    ensures
        forall|i: int|
            0 <= i < candidates(bound, field).len() ==> has_shape(
                field,
                (#[trigger] candidates(bound, field)[i]).value,
            ),
    decreases bound.len(),
{
    if bound.len() > 0 {
        lemma_candidate_shapes(bound.drop_last(), field);
    }
}

/// The merged value has the field's shape, and is as strict as each candidate.
proof fn lemma_merged(cs: Seq<CandidateModel>, field: Tag)
    requires
        cs.len() > 0,
        forall|i: int| 0 <= i < cs.len() ==> has_shape(field, (#[trigger] cs[i]).value),
    ensures
        has_shape(field, merged_value(cs)),
        forall|i: int|
            0 <= i < cs.len() ==> keeps(merged_value(cs), (#[trigger] cs[i]).value),
    decreases cs.len(),
{
    if cs.len() > 1 {
        let front = cs.drop_last();
        assert forall|i: int| 0 <= i < front.len() implies has_shape(
            field,
            (#[trigger] front[i]).value,
        ) by {
            assert(front[i] == cs[i]);
        }
        lemma_merged(front, field);
        let m = merged_value(front);
        law_meet_is_at_least_as_strict(m, cs.last().value);
        assert forall|i: int| 0 <= i < cs.len() implies keeps(
            merged_value(cs),
            (#[trigger] cs[i]).value,
        ) by {
            if i < front.len() {
                assert(front[i] == cs[i]);
                if m != cs[i].value {
                    law_strictness_is_transitive(merged_value(cs), m, cs[i].value);
                }
            }
        }
    } else {
        assert(cs[0].value == merged_value(cs));
    }
}

/// What holds of a field's state at every level: values have the field's
/// shape, and the current value keeps to the pinned one.
spec fn state_ok(state: FieldStateModel, field: Tag) -> bool {
    &&& state.current matches Some(slot) ==> has_shape(field, slot.value)
    &&& state.floor matches Some(floor) ==> has_shape(field, floor.value) && (state.current matches
        Some(slot) && keeps(slot.value, floor.value))
}

proof fn lemma_state_after_ok(
    state: FieldStateModel,
    bound: Seq<BoundRevisionModel>,
    field: Tag,
    level: super::target::TargetLevel,
)
    requires
        state_ok(state, field),
    ensures
        state_ok(state_after(state, bound, field, level), field),
        state.floor matches Some(floor) ==> (state_after(state, bound, field, level).floor matches
            Some(next) && keeps(next.value, floor.value)),
{
    let cs = candidates(bound, field);
    if cs.len() > 0 {
        lemma_candidate_shapes(bound, field);
        lemma_merged(cs, field);
        match state.current {
            Some(slot) => {
                law_meet_is_at_least_as_strict(slot.value, merged_value(cs));
            },
            None => {},
        }
    }
}

proof fn lemma_field_state_ok(bound: Seq<BoundRevisionModel>, field: Tag, n: int)
    ensures
        state_ok(field_state(bound, field, n), field),
    decreases n,
{
    if n > 0 {
        lemma_field_state_ok(bound, field, n - 1);
        lemma_state_after_ok(
            field_state(bound, field, n - 1),
            at_level(bound, level_at(n - 1)),
            field,
            level_at(n - 1),
        );
    }
}

proof fn lemma_floor_kept(bound: Seq<BoundRevisionModel>, field: Tag, l: int, m: int)
    requires
        0 <= l <= m,
    ensures
        field_state(bound, field, l).floor matches Some(floor) ==> (field_state(
            bound,
            field,
            m,
        ).floor matches Some(next) && keeps(next.value, floor.value)),
    decreases m - l,
{
    lemma_field_state_ok(bound, field, l);
    if l < m {
        lemma_floor_kept(bound, field, l, m - 1);
        lemma_field_state_ok(bound, field, m - 1);
        lemma_state_after_ok(
            field_state(bound, field, m - 1),
            at_level(bound, level_at(m - 1)),
            field,
            level_at(m - 1),
        );
        if field_state(bound, field, l).floor is Some {
            let a = field_state(bound, field, l).floor.unwrap().value;
            let b = field_state(bound, field, m - 1).floor.unwrap().value;
            lemma_field_state_ok(bound, field, m);
            let c = field_state(bound, field, m).floor.unwrap().value;
            if a != b && b != c {
                law_strictness_is_transitive(c, b, a);
            }
        }
    }
}

/// A field pinned at some level is never loosened by a more specific one: the
/// value resolved for it is the pinned value, or at least as strict.
pub proof fn law_pins_are_never_loosened(bound: Seq<BoundRevisionModel>, field: Tag, level: int)
    requires
        0 <= level <= 5,
    ensures
        field_state(bound, field, level).floor matches Some(floor) ==> (field_state(
            bound,
            field,
            5,
        ).current matches Some(slot) && keeps(slot.value, floor.value)),
{
    lemma_floor_kept(bound, field, level, 5);
    lemma_field_state_ok(bound, field, 5);
    lemma_field_state_ok(bound, field, level);
    if field_state(bound, field, level).floor is Some {
        let a = field_state(bound, field, level).floor.unwrap().value;
        let b = field_state(bound, field, 5).floor.unwrap().value;
        let c = field_state(bound, field, 5).current.unwrap().value;
        if a != b && b != c {
            law_strictness_is_transitive(c, b, a);
        }
    }
}

/// A binding that pins a field it sets leaves that field pinned after its
/// level.
pub proof fn law_pinning_binding_sets_floor(
    bound: Seq<BoundRevisionModel>,
    field: Tag,
    level: int,
    i: int,
)
    requires
        0 <= level < 5,
        0 <= i < at_level(bound, level_at(level)).len(),
        at_level(bound, level_at(level))[i].revision.body.pinned_fields.contains(field),
        field_of(at_level(bound, level_at(level))[i].revision.body.content, field) is Some,
    ensures
        field_state(bound, field, level + 1).floor is Some,
{
    let bs = at_level(bound, level_at(level));
    lemma_candidates_nonempty(bs, field, i);
    lemma_pin_found(bs, field, level_at(level), i);
}

pub(crate) proof fn lemma_candidates_nonempty(bs: Seq<BoundRevisionModel>, field: Tag, i: int)
    requires
        0 <= i < bs.len(),
        field_of(bs[i].revision.body.content, field) is Some,
    ensures
        candidates(bs, field).len() > 0,
    decreases bs.len(),
{
    if i < bs.len() - 1 {
        assert(bs.drop_last()[i] == bs[i]);
        lemma_candidates_nonempty(bs.drop_last(), field, i);
    }
}

proof fn lemma_pin_found(
    bs: Seq<BoundRevisionModel>,
    field: Tag,
    level: super::target::TargetLevel,
    i: int,
)
    requires
        0 <= i < bs.len(),
        bs[i].revision.body.pinned_fields.contains(field),
    ensures
        pin_at(bs, field, level) is Some,
    decreases bs.len(),
{
    if i < bs.len() - 1 {
        assert(bs.drop_last()[i] == bs[i]);
        lemma_pin_found(bs.drop_last(), field, level, i);
    }
}

proof fn lemma_binding_keys_distinguish(bound: Seq<BoundRevision>)
    ensures
        keys_distinguish::<&BoundRevision>(deep_seq(bound)),
{
    let s = deep_seq(bound);
    assert forall|i: int, j: int|
        #![trigger s[i], s[j]]
        0 <= i < s.len() && 0 <= j < s.len() && <&BoundRevision>::sort_key(s[i])
            == <&BoundRevision>::sort_key(s[j]) implies s[i] == s[j] by {
        BoundRevision::lemma_codable(bound[i]);
        BoundRevision::lemma_codable(bound[j]);
        BoundRevision::lemma_code_ends(s[i], s[j], Seq::empty(), Seq::empty());
    }
}

/// The order in which bindings are given changes nothing about a resolution.
pub proof fn law_resolution_ignores_binding_order(
    a: Seq<BoundRevision>,
    b: Seq<BoundRevision>,
    ctx: DeviceContextModel,
)
    requires
        deep_seq(a).to_multiset() == deep_seq(b).to_multiset(),
    ensures
        resolution(deep_seq(a), ctx) == resolution(deep_seq(b), ctx),
{
    lemma_binding_keys_distinguish(a);
    law_stable_sort_ignores_input_order::<&BoundRevision>(deep_seq(a), deep_seq(b));
}

proof fn lemma_no_bindings_values(bound: Seq<BoundRevisionModel>, f: int)
    requires
        bound.len() == 0,
    ensures
        resolved_values(bound, f) == baseline_values(),
    decreases f,
{
    if f > 0 {
        lemma_no_bindings_values(bound, f - 1);
        lemma_no_bindings_state(bound, known_tag(f - 1), 5);
    }
}

proof fn lemma_no_bindings_state(bound: Seq<BoundRevisionModel>, field: Tag, n: int)
    requires
        bound.len() == 0,
    ensures
        field_state(bound, field, n) == no_state(),
    decreases n,
{
    if n > 0 {
        lemma_no_bindings_state(bound, field, n - 1);
        assert(at_level(bound, level_at(n - 1)).len() == 0);
        assert(candidates(at_level(bound, level_at(n - 1)), field).len() == 0);
    }
}

proof fn lemma_no_bindings_contribute(bound: Seq<BoundRevisionModel>, n: int)
    requires
        bound.len() == 0,
    ensures
        contributions(bound, n).len() == 0,
    decreases n,
{
    if n > 0 {
        lemma_no_bindings_contribute(bound, n - 1);
        lemma_no_level_contribution(contributions(bound, n - 1), bound, n - 1, 9);
    }
}

proof fn lemma_no_level_contribution(
    refs: Seq<PolicyRevisionRefModel>,
    bound: Seq<BoundRevisionModel>,
    l: int,
    f: int,
)
    requires
        bound.len() == 0,
    ensures
        level_contribution(refs, bound, l, f) == refs,
    decreases f,
{
    if f > 0 {
        lemma_no_level_contribution(refs, bound, l, f - 1);
        assert(at_level(bound, level_at(l)).len() == 0);
        assert(candidates(at_level(bound, level_at(l)), known_tag(f - 1)).len() == 0);
    }
}

/// A device that no binding applies to gets the baseline for every field, no
/// revision contributes to it, and it is told so last.
pub proof fn law_no_applicable_binding_gives_baseline(
    bound: Seq<BoundRevisionModel>,
    ctx: DeviceContextModel,
)
    requires
        applicable(stably_sorted::<&BoundRevision>(bound), ctx).len() == 0,
    ensures
        resolution(bound, ctx).0.values == baseline_values(),
        forall|f: int|
            0 <= f < 9 ==> #[trigger] resolution(bound, ctx).0.provenance[f] == (
                known_tag(f),
                FieldProvenanceModel::Baseline,
            ),
        resolution(bound, ctx).0.contributing == Seq::<PolicyRevisionRefModel>::empty(),
        resolution(bound, ctx).1.last() == no_applicable_policy_diagnostic(),
{
    let chosen = applicable(stably_sorted::<&BoundRevision>(bound), ctx);
    lemma_no_bindings_contribute(chosen, 5);
    lemma_no_bindings_values(chosen, 9);
    assert forall|f: int| 0 <= f < 9 implies #[trigger] resolution(bound, ctx).0.provenance[f] == (
        known_tag(f),
        FieldProvenanceModel::Baseline,
    ) by {
        lemma_no_bindings_state(chosen, known_tag(f), 5);
    }
}

/// After a level, an accumulating field covers what each of the level's
/// candidates says, and what it covered before.
proof fn lemma_accumulates(
    state: FieldStateModel,
    bound: Seq<BoundRevisionModel>,
    field: Tag,
    level: super::target::TargetLevel,
)
    requires
        state_ok(state, field),
        field == known_tag(4) || field == known_tag(5),
        candidates(bound, field).len() > 0,
    ensures
        state_after(state, bound, field, level).current matches Some(slot) && has_shape(
            field,
            slot.value,
        ) && (state.current matches Some(prev) ==> keeps(slot.value, prev.value)) && forall|i: int|
            0 <= i < candidates(bound, field).len() ==> keeps(
                slot.value,
                (#[trigger] candidates(bound, field)[i]).value,
            ),
{
    let cs = candidates(bound, field);
    lemma_candidate_shapes(bound, field);
    lemma_merged(cs, field);
    let m = merged_value(cs);
    let v = level_value(state, cs, field);
    match state.current {
        Some(prev) => {
            law_meet_is_at_least_as_strict(prev.value, m);
            assert(at_least_as_strict(v, prev.value));
            assert(at_least_as_strict(v, m));
            match state.floor {
                Some(floor) => {
                    if prev.value != floor.value {
                        law_strictness_is_transitive(v, prev.value, floor.value);
                    }
                },
                None => {},
            }
            assert forall|i: int| 0 <= i < cs.len() implies keeps(v, (#[trigger] cs[i]).value) by {
                if m != cs[i].value {
                    law_strictness_is_transitive(v, m, cs[i].value);
                }
            }
        },
        None => {},
    }
    assert(!loosens_pin(state, cs, field));
}

proof fn lemma_candidate_for(bs: Seq<BoundRevisionModel>, field: Tag, i: int)
    requires
        0 <= i < bs.len(),
        field_of(bs[i].revision.body.content, field) is Some,
    ensures
        exists|k: int|
            0 <= k < candidates(bs, field).len() && (#[trigger] candidates(bs, field)[k]).value
                == field_of(bs[i].revision.body.content, field).unwrap(),
    decreases bs.len(),
{
    let want = field_of(bs[i].revision.body.content, field).unwrap();
    let front = bs.drop_last();
    if i < bs.len() - 1 {
        assert(front[i] == bs[i]);
        lemma_candidate_for(front, field, i);
        let k = choose|k: int|
            0 <= k < candidates(front, field).len() && (#[trigger] candidates(front, field)[k]).value
                == want;
        assert(candidates(bs, field)[k].value == want);
    } else {
        let n = candidates(front, field).len() as int;
        assert(candidates(bs, field)[n].value == want);
    }
}

proof fn lemma_accumulated_kept(bound: Seq<BoundRevisionModel>, field: Tag, l: int, m: int)
    requires
        0 <= l <= m,
        field == known_tag(4) || field == known_tag(5),
    ensures
        field_state(bound, field, l).current matches Some(a) ==> (field_state(
            bound,
            field,
            m,
        ).current matches Some(b) && keeps(b.value, a.value)),
    decreases m - l,
{
    if l < m {
        lemma_accumulated_kept(bound, field, l, m - 1);
        let state = field_state(bound, field, m - 1);
        let bs = at_level(bound, level_at(m - 1));
        lemma_field_state_ok(bound, field, l);
        lemma_field_state_ok(bound, field, m - 1);
        lemma_field_state_ok(bound, field, m);
        if candidates(bs, field).len() > 0 {
            lemma_accumulates(state, bs, field, level_at(m - 1));
            if field_state(bound, field, l).current is Some {
                let a = field_state(bound, field, l).current.unwrap().value;
                let b = state.current.unwrap().value;
                let c = field_state(bound, field, m).current.unwrap().value;
                if a != b && b != c {
                    law_strictness_is_transitive(c, b, a);
                }
            }
        }
    }
}

proof fn lemma_requirement_noted(
    required: Seq<Tag>,
    declared: Seq<CapabilitySignalModel>,
    class: Tag,
)
    requires
        required.contains(class),
        declared_state(declared, class) == known_tag(1),
    ensures
        requirement_notes(required, declared).contains(unsupported_requirement_diagnostic(class)),
    decreases required.len(),
{
    let notes = requirement_notes(required, declared);
    if required.last() == class {
        assert(notes.last() == unsupported_requirement_diagnostic(class));
    } else {
        let front = required.drop_last();
        let i = choose|i: int| 0 <= i < required.len() && required[i] == class;
        assert(front[i] == class);
        lemma_requirement_noted(front, declared, class);
        let inner = requirement_notes(front, declared);
        let k = choose|k: int|
            0 <= k < inner.len() && inner[k] == unsupported_requirement_diagnostic(class);
        assert(notes[k] == inner[k]);
    }
}

/// A signal that the resolved policy requires and the device declares
/// unsupported is never passed over: it is reported.
pub proof fn law_unsupported_requirements_are_reported(
    bound: Seq<BoundRevisionModel>,
    ctx: DeviceContextModel,
    class: Tag,
)
    requires
        resolution(bound, ctx).0.values.sensors_required_signals.contains(class),
        declared_state(ctx.capabilities.signals, class) == known_tag(1),
    ensures
        resolution(bound, ctx).1.contains(unsupported_requirement_diagnostic(class)),
{
    let chosen = applicable(stably_sorted::<&BoundRevision>(bound), ctx);
    if chosen.len() == 0 {
        lemma_no_bindings_values(chosen, 9);
    } else {
        let required = resolved_values(chosen, 9).sensors_required_signals;
        lemma_requirement_noted(required, ctx.capabilities.signals, class);
        let added = requirement_notes(required, ctx.capabilities.signals);
        let all = resolution(bound, ctx).1;
        let k = choose|k: int|
            0 <= k < added.len() && added[k] == unsupported_requirement_diagnostic(class);
        assert(all[all.len() - added.len() + k] == added[k]);
    }
}

/// Disabled sensors and required signals accumulate: whatever any applicable
/// binding says about them, the resolved value covers it, whatever more
/// specific levels say.
pub proof fn law_safety_floors_accumulate(
    bound: Seq<BoundRevisionModel>,
    field: Tag,
    level: int,
    i: int,
)
    requires
        field == known_tag(4) || field == known_tag(5),
        0 <= level < 5,
        0 <= i < at_level(bound, level_at(level)).len(),
        field_of(at_level(bound, level_at(level))[i].revision.body.content, field) is Some,
    ensures
        field_state(bound, field, 5).current matches Some(slot) && keeps(
            slot.value,
            field_of(at_level(bound, level_at(level))[i].revision.body.content, field).unwrap(),
        ),
{
    let bs = at_level(bound, level_at(level));
    let want = field_of(bs[i].revision.body.content, field).unwrap();
    lemma_candidate_for(bs, field, i);
    let k = choose|k: int|
        0 <= k < candidates(bs, field).len() && (#[trigger] candidates(bs, field)[k]).value == want;
    lemma_field_state_ok(bound, field, level);
    lemma_field_state_ok(bound, field, level + 1);
    lemma_field_state_ok(bound, field, 5);
    lemma_accumulates(field_state(bound, field, level), bs, field, level_at(level));
    lemma_accumulated_kept(bound, field, level + 1, 5);
    let b = field_state(bound, field, level + 1).current.unwrap().value;
    let c = field_state(bound, field, 5).current.unwrap().value;
    lemma_candidate_shapes(bs, field);
    if want != b && b != c {
        law_strictness_is_transitive(c, b, want);
    }
}

} // verus!

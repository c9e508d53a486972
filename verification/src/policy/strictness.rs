//! The strictness order of policy fields: how it goes together with the
//! common value of two values.
use vstd::prelude::*;

use super::content::{
    first_rule, normalized_signals, EnforcementOutcome, EnforcementRule, EnforcementRuleModel,
    PolicyContentModel, RiskClass,
};
use super::field::{
    at_least_as_strict, combined_rule, field_met, field_of, rule_covers, rules_cover, rules_merged,
    signals_cover, FieldModel,
};
use super::laws::{
    law_meet_is_at_least_as_strict, law_merged_rules_are_canonical_and_strict,
    law_normalized_signals_depend_on_members_only, lemma_first_rule_member, lemma_normalized,
    lemma_normalized_members, lemma_rest_ascending, lemma_rule_merged, lemma_same_members,
    lemma_written_apart, same_shape, written_apart,
};
use crate::capabilities::SignalClass;
use crate::evidence::Verdict;
use crate::model::{known_tag, Tag};
use crate::order::{
    ascending, key_before, law_stable_sort_is_sorted_permutation, lemma_ascending_unique,
    lemma_key_irreflexive, lemma_key_total, nondecreasing, stably_sorted, tag_key, Sortable,
};

verus! {

/// Whether a value is in canonical form: its signal classes ascend, and its
/// rules ascend by action class, one for each.
pub open spec fn canonical(v: FieldModel) -> bool {
    match v {
        FieldModel::RequiredSignals(s) => ascending::<SignalClass>(s),
        FieldModel::EnforcementRules(r) => ascending::<EnforcementRule>(r),
        _ => true,
    }
}

/// The signal classes a value lists.
pub open spec fn signals_of(v: FieldModel) -> Seq<Tag> {
    match v {
        FieldModel::RequiredSignals(s) => s,
        _ => Seq::empty(),
    }
}

/// Whether a signal class is a known one, or one whose name no known one has.
pub open spec fn plainly_named(class: Tag) -> bool {
    ||| 0 <= class.index < 11 && class == known_tag(class.index)
    ||| class.index == 11 && forall|k: int|
        0 <= k < 11 ==> class.text != #[trigger] SignalClass::wire_text(known_tag(k))
}

proof fn lemma_known_names_differ(i: int, j: int)
    requires
        0 <= i < j < 11,
    ensures
        SignalClass::wire_text(known_tag(i)) != SignalClass::wire_text(known_tag(j)),
{
    reveal_strlit("tool_invocation");
    reveal_strlit("tool_trace");
    reveal_strlit("tool_result_payload");
    reveal_strlit("process_result");
    reveal_strlit("session_lifecycle");
    reveal_strlit("subagent_lifecycle");
    reveal_strlit("final_response");
    reveal_strlit("reasoning_summary");
    reveal_strlit("raw_reasoning");
    reveal_strlit("token_logprobs");
    reveal_strlit("internal_model_signals");
    let a = SignalClass::wire_text(known_tag(i));
    let b = SignalClass::wire_text(known_tag(j));
    if a == b {
        assert(a.len() == b.len());
        assert(a[0] == b[0]);
    }
}

/// Plainly named signal classes are never written alike.
pub proof fn law_plain_signals_are_written_apart(classes: Seq<Tag>)
    requires
        forall|i: int| 0 <= i < classes.len() ==> plainly_named(#[trigger] classes[i]),
    ensures
        written_apart(classes),
{
    assert forall|i: int, j: int|
        #![trigger classes[i], classes[j]]
        0 <= i < classes.len() && 0 <= j < classes.len() && SignalClass::wire_text(classes[i])
            == SignalClass::wire_text(classes[j]) implies classes[i] == classes[j] by {
        let a = classes[i];
        let b = classes[j];
        assert(plainly_named(a) && plainly_named(b));
        if a.index < 11 && b.index < 11 {
            if a.index < b.index {
                lemma_known_names_differ(a.index, b.index);
            } else if b.index < a.index {
                lemma_known_names_differ(b.index, a.index);
            }
        } else if a.index < 11 {
            assert(b.text != SignalClass::wire_text(known_tag(a.index)));
        } else if b.index < 11 {
            assert(a.text != SignalClass::wire_text(known_tag(b.index)));
        } else {
            assert(a.text == b.text);
        }
    }
}

proof fn lemma_outcomes_combine(
    a: EnforcementOutcome,
    b: EnforcementOutcome,
    c: EnforcementOutcome,
)
    ensures
        EnforcementOutcome::stricter(a, b) == EnforcementOutcome::stricter(b, a),
        EnforcementOutcome::stricter(a, EnforcementOutcome::stricter(b, c))
            == EnforcementOutcome::stricter(EnforcementOutcome::stricter(a, b), c),
        a.rank() >= b.rank() ==> EnforcementOutcome::stricter(a, b) == a,
{
}

proof fn lemma_risks_combine(a: RiskClass, b: RiskClass, c: RiskClass)
    ensures
        RiskClass::higher(a, b) == RiskClass::higher(b, a),
        RiskClass::higher(a, RiskClass::higher(b, c)) == RiskClass::higher(
            RiskClass::higher(a, b),
            c,
        ),
        a.rank() >= b.rank() ==> RiskClass::higher(a, b) == a,
{
}

proof fn lemma_rules_combine(
    a: EnforcementRuleModel,
    b: EnforcementRuleModel,
    c: EnforcementRuleModel,
)
    requires
        a.action_class == b.action_class,
    ensures
        combined_rule(a, b) == combined_rule(b, a),
        combined_rule(a, combined_rule(b, c)) == combined_rule(combined_rule(a, b), c),
        rule_covers(a, b) ==> combined_rule(a, b) == a,
{
    lemma_risks_combine(a.risk_class, b.risk_class, c.risk_class);
    let (x, y, z) = (a.outcomes, b.outcomes, c.outcomes);
    lemma_outcomes_combine(x.verified, y.verified, z.verified);
    lemma_outcomes_combine(x.unverified, y.unverified, z.unverified);
    lemma_outcomes_combine(x.contradicted, y.contradicted, z.contradicted);
    lemma_outcomes_combine(x.review, y.review, z.review);
    lemma_outcomes_combine(x.unavailable, y.unavailable, z.unavailable);
    if rule_covers(a, b) {
        assert(x.outcome(Verdict::Verified).rank() >= y.outcome(Verdict::Verified).rank());
        assert(x.outcome(Verdict::Unverified).rank() >= y.outcome(Verdict::Unverified).rank());
        assert(x.outcome(Verdict::Contradicted).rank() >= y.outcome(Verdict::Contradicted).rank());
        assert(x.outcome(Verdict::Review).rank() >= y.outcome(Verdict::Review).rank());
        assert(x.outcome(Verdict::Unavailable).rank() >= y.outcome(Verdict::Unavailable).rank());
    }
}

/// A rule that covers two rules covers both as one.
proof fn lemma_covers_combined(
    top: EnforcementRuleModel,
    a: EnforcementRuleModel,
    b: EnforcementRuleModel,
)
    requires
        rule_covers(top, a),
        rule_covers(top, b),
    ensures
        rule_covers(top, combined_rule(a, b)),
{
    let c = combined_rule(a, b);
    assert forall|v: Verdict| (#[trigger] top.outcomes.outcome(v)).rank() >= c.outcomes.outcome(
        v,
    ).rank() by {
        assert(top.outcomes.outcome(v).rank() >= a.outcomes.outcome(v).rank());
        assert(top.outcomes.outcome(v).rank() >= b.outcomes.outcome(v).rank());
    }
}

/// Two rules for one class as one, where either may be missing.
spec fn joined(
    a: Option<EnforcementRuleModel>,
    b: Option<EnforcementRuleModel>,
) -> Option<EnforcementRuleModel> {
    match (a, b) {
        (Some(x), Some(y)) => Some(combined_rule(x, y)),
        (Some(x), None) => Some(x),
        (None, _) => b,
    }
}

/// All rules for a class as one rule.
spec fn strictest(rules: Seq<EnforcementRuleModel>, class: Tag) -> Option<EnforcementRuleModel>
    decreases rules.len(),
{
    if rules.len() == 0 {
        None
    } else if rules.last().action_class == class {
        joined(strictest(rules.drop_last(), class), Some(rules.last()))
    } else {
        strictest(rules.drop_last(), class)
    }
}

proof fn lemma_strictest_class(rules: Seq<EnforcementRuleModel>, class: Tag)
    ensures
        strictest(rules, class) matches Some(rule) ==> rule.action_class == class && exists|i: int|
            0 <= i < rules.len() && (#[trigger] rules[i]).action_class == class,
    decreases rules.len(),
{
    if rules.len() > 0 {
        let front = rules.drop_last();
        lemma_strictest_class(front, class);
        if rules.last().action_class == class {
            assert(rules[rules.len() - 1].action_class == class);
        } else if strictest(front, class) is Some {
            let i = choose|i: int|
                0 <= i < front.len() && (#[trigger] front[i]).action_class == class;
            assert(rules[i].action_class == class);
        }
    }
}

/// The rule of a class in a merged list is all the rules for it as one.
proof fn lemma_merged_rule(rules: Seq<EnforcementRuleModel>, class: Tag)
    ensures
        first_rule(rules_merged(rules), class) == strictest(rules, class),
    decreases rules.len(),
{
    if rules.len() > 0 {
        let front = rules.drop_last();
        law_merged_rules_are_canonical_and_strict(front);
        lemma_merged_rule(front, class);
        lemma_rule_merged(rules_merged(front), rules.last(), class);
    }
}

proof fn lemma_strictest_of_both(
    a: Seq<EnforcementRuleModel>,
    b: Seq<EnforcementRuleModel>,
    class: Tag,
)
    ensures
        strictest(a + b, class) == joined(strictest(a, class), strictest(b, class)),
    decreases b.len(),
{
    if b.len() == 0 {
        assert(a + b =~= a);
    } else {
        let front = b.drop_last();
        lemma_strictest_of_both(a, front, class);
        assert((a + b).drop_last() =~= a + front);
        assert((a + b).last() == b.last());
        lemma_strictest_class(a, class);
        lemma_strictest_class(front, class);
        if b.last().action_class == class {
            match (strictest(a, class), strictest(front, class)) {
                (Some(x), Some(y)) => {
                    lemma_rules_combine(x, y, b.last());
                },
                _ => {},
            }
        }
    }
}

proof fn lemma_first_rule_ascending(rules: Seq<EnforcementRuleModel>, i: int)
    requires
        ascending::<EnforcementRule>(rules),
        0 <= i < rules.len(),
    ensures
        first_rule(rules, rules[i].action_class) == Some(rules[i]),
    decreases rules.len(),
{
    if i > 0 {
        assert(key_before(tag_key(rules[0].action_class), tag_key(rules[i].action_class)));
        lemma_key_irreflexive(tag_key(rules[0].action_class));
        lemma_rest_ascending(rules);
        let rest = rules.drop_first();
        assert(rest[i - 1] == rules[i]);
        lemma_first_rule_ascending(rest, i - 1);
    }
}

/// In an ascending list, the rule of a class is all the rules for it as one.
proof fn lemma_strictest_of_ascending(rules: Seq<EnforcementRuleModel>, class: Tag)
    requires
        ascending::<EnforcementRule>(rules),
    ensures
        strictest(rules, class) == first_rule(rules, class),
    decreases rules.len(),
{
    if rules.len() > 0 {
        let front = rules.drop_last();
        let last = rules.len() - 1;
        assert forall|i: int, j: int|
            #![trigger front[i], front[j]]
            0 <= i < j < front.len() implies key_before(
            EnforcementRule::sort_key(front[i]),
            EnforcementRule::sort_key(front[j]),
        ) by {
            assert(front[i] == rules[i] && front[j] == rules[j]);
        }
        lemma_strictest_of_ascending(front, class);
        lemma_first_rule_member(front, class);
        lemma_first_rule_member(rules, class);
        match first_rule(front, class) {
            Some(rule) => {
                let i = choose|i: int| 0 <= i < front.len() && front[i] == rule;
                assert(rules[i] == rule);
                lemma_first_rule_ascending(rules, i);
                assert(key_before(
                    tag_key(rules[i].action_class),
                    tag_key(rules[last].action_class),
                ));
                lemma_key_irreflexive(tag_key(class));
            },
            None => {
                if rules.last().action_class == class {
                    lemma_first_rule_ascending(rules, last);
                } else if first_rule(rules, class) is Some {
                    let rule = first_rule(rules, class).unwrap();
                    let i = choose|i: int| 0 <= i < rules.len() && rules[i] == rule;
                    assert(front[i] == rule);
                    lemma_first_rule_ascending(front, i);
                }
            },
        }
    }
}

/// What merging two ascending lists does to the rule of each class.
pub(crate) proof fn lemma_merged_of_ascending(
    a: Seq<EnforcementRuleModel>,
    b: Seq<EnforcementRuleModel>,
    class: Tag,
)
    requires
        ascending::<EnforcementRule>(a),
        ascending::<EnforcementRule>(b),
    ensures
        ascending::<EnforcementRule>(rules_merged(a + b)),
        first_rule(rules_merged(a + b), class) == (match (
            first_rule(a, class),
            first_rule(b, class),
        ) {
            (Some(x), Some(y)) => Some(combined_rule(x, y)),
            (Some(x), None) => Some(x),
            (None, y) => y,
        }),
{
    law_merged_rules_are_canonical_and_strict(a + b);
    lemma_merged_rule(a + b, class);
    lemma_strictest_of_both(a, b, class);
    lemma_strictest_of_ascending(a, class);
    lemma_strictest_of_ascending(b, class);
}

/// Ascending rule lists with the same rule for every class are the same list.
proof fn lemma_rules_extensional(a: Seq<EnforcementRuleModel>, b: Seq<EnforcementRuleModel>)
    requires
        ascending::<EnforcementRule>(a),
        ascending::<EnforcementRule>(b),
        forall|class: Tag| #[trigger] first_rule(a, class) == first_rule(b, class),
    ensures
        a == b,
{
    assert forall|rule: EnforcementRuleModel| a.to_set().contains(rule) == b.to_set().contains(rule) by {
        if a.contains(rule) {
            let i = choose|i: int| 0 <= i < a.len() && a[i] == rule;
            lemma_first_rule_ascending(a, i);
            lemma_first_rule_member(b, rule.action_class);
            assert(first_rule(a, rule.action_class) == first_rule(b, rule.action_class));
        }
        if b.contains(rule) {
            let i = choose|i: int| 0 <= i < b.len() && b[i] == rule;
            lemma_first_rule_ascending(b, i);
            lemma_first_rule_member(a, rule.action_class);
            assert(first_rule(a, rule.action_class) == first_rule(b, rule.action_class));
        }
    }
    assert(a.to_set() =~= b.to_set());
    lemma_ascending_unique::<EnforcementRule>(a, b);
}

/// A rule that covers every rule for its class covers them all as one.
proof fn lemma_covers_strictest(
    top: EnforcementRuleModel,
    rules: Seq<EnforcementRuleModel>,
    class: Tag,
)
    requires
        forall|i: int|
            0 <= i < rules.len() && (#[trigger] rules[i]).action_class == class ==> rule_covers(
                top,
                rules[i],
            ),
    ensures
        strictest(rules, class) matches Some(rule) ==> rule_covers(top, rule),
    decreases rules.len(),
{
    if rules.len() > 0 {
        let front = rules.drop_last();
        assert forall|i: int|
            0 <= i < front.len() && (#[trigger] front[i]).action_class == class implies rule_covers(
            top,
            front[i],
        ) by {
            assert(front[i] == rules[i]);
        }
        lemma_covers_strictest(top, front, class);
        if rules.last().action_class == class {
            assert(rule_covers(top, rules[rules.len() - 1]));
            match strictest(front, class) {
                Some(rule) => {
                    lemma_covers_combined(top, rule, rules.last());
                },
                None => {},
            }
        }
    }
}

proof fn lemma_covered_rules_change_nothing(
    c: Seq<EnforcementRuleModel>,
    f: Seq<EnforcementRuleModel>,
)
    requires
        ascending::<EnforcementRule>(c),
        rules_cover(c, f),
    ensures
        rules_merged(c + f) == c,
{
    law_merged_rules_are_canonical_and_strict(c + f);
    assert forall|class: Tag| #[trigger] first_rule(rules_merged(c + f), class) == first_rule(
        c,
        class,
    ) by {
        lemma_merged_rule(c + f, class);
        lemma_strictest_of_both(c, f, class);
        lemma_strictest_of_ascending(c, class);
        lemma_strictest_class(f, class);
        lemma_strictest_class(c, class);
        if strictest(f, class) is Some {
            let i = choose|i: int| 0 <= i < f.len() && (#[trigger] f[i]).action_class == class;
            assert(first_rule(c, f[i].action_class) is Some);
            let top = first_rule(c, class).unwrap();
            assert forall|k: int|
                0 <= k < f.len() && (#[trigger] f[k]).action_class == class implies rule_covers(
                top,
                f[k],
            ) by {}
            lemma_covers_strictest(top, f, class);
            lemma_rules_combine(top, strictest(f, class).unwrap(), top);
        }
    }
    lemma_rules_extensional(rules_merged(c + f), c);
}

proof fn lemma_ascending_written_apart(s: Seq<Tag>)
    requires
        ascending::<SignalClass>(s),
    ensures
        written_apart(s),
{
    assert forall|i: int, j: int|
        #![trigger s[i], s[j]]
        0 <= i < s.len() && 0 <= j < s.len() && SignalClass::wire_text(s[i])
            == SignalClass::wire_text(s[j]) implies s[i] == s[j] by {
        lemma_key_irreflexive(SignalClass::sort_key(s[i]));
        if i < j {
            assert(key_before(SignalClass::sort_key(s[i]), SignalClass::sort_key(s[j])));
        } else if j < i {
            assert(key_before(SignalClass::sort_key(s[j]), SignalClass::sort_key(s[i])));
        }
    }
}

proof fn lemma_member_of_both(x: Seq<Tag>, y: Seq<Tag>, t: Tag)
    ensures
        (x + y).contains(t) == (x.contains(t) || y.contains(t)),
{
    let both = x + y;
    if x.contains(t) {
        let i = choose|i: int| 0 <= i < x.len() && x[i] == t;
        assert(both[i] == t);
    }
    if y.contains(t) {
        let i = choose|i: int| 0 <= i < y.len() && y[i] == t;
        assert(both[x.len() + i] == t);
    }
    if both.contains(t) {
        let i = choose|i: int| 0 <= i < both.len() && both[i] == t;
        if i < x.len() {
            assert(x[i] == t);
        } else {
            assert(y[i - x.len()] == t);
        }
    }
}

proof fn lemma_covered_signals_change_nothing(c: Seq<Tag>, f: Seq<Tag>)
    requires
        ascending::<SignalClass>(c),
        signals_cover(c, f),
    ensures
        normalized_signals(c + f) == c,
{
    let both = c + f;
    lemma_ascending_written_apart(c);
    assert forall|t: Tag| #[trigger] c.contains(t) == both.contains(t) by {
        lemma_member_of_both(c, f, t);
        if f.contains(t) {
            let i = choose|i: int| 0 <= i < f.len() && f[i] == t;
            assert(c.contains(f[i]));
        }
    }
    lemma_written_apart(c, both);
    lemma_normalized(both);
    assert(both.to_set() =~= c.to_set()) by {
        assert forall|t: Tag| both.to_set().contains(t) == c.to_set().contains(t) by {
            assert(c.contains(t) == both.contains(t));
        }
    }
    lemma_ascending_unique::<SignalClass>(normalized_signals(both), c);
}

/// A value is at least as strict as another exactly if taking the other into
/// account changes nothing about it.
pub proof fn law_strictness_mirrors_the_meet(candidate: FieldModel, floor: FieldModel)
    requires
        same_shape(candidate, floor),
        canonical(candidate),
    ensures
        at_least_as_strict(candidate, floor) == (field_met(candidate, floor) == candidate),
{
    law_meet_is_at_least_as_strict(candidate, floor);
    match (candidate, floor) {
        (FieldModel::AllowedContent(c), FieldModel::AllowedContent(f)) => {
            if c.subset_of(f) {
                assert(c.intersect(f) =~= c);
            }
        },
        (FieldModel::SensorsDisabled(c), FieldModel::SensorsDisabled(f)) => {
            if f.subset_of(c) {
                assert(c.union(f) =~= c);
            }
        },
        (FieldModel::RequiredSignals(c), FieldModel::RequiredSignals(f)) => {
            if signals_cover(c, f) {
                lemma_covered_signals_change_nothing(c, f);
            }
        },
        (FieldModel::EnforcementRules(c), FieldModel::EnforcementRules(f)) => {
            if rules_cover(c, f) {
                lemma_covered_rules_change_nothing(c, f);
            }
        },
        _ => {},
    }
}

/// A list of rules that has no rule for a class of the floor is never as
/// strict, and more rules never make a list looser.
pub proof fn law_dropping_a_class_is_looser(
    candidate: Seq<EnforcementRuleModel>,
    floor: Seq<EnforcementRuleModel>,
    more: Seq<EnforcementRuleModel>,
    i: int,
)
    requires
        0 <= i < floor.len(),
    ensures
        first_rule(candidate, floor[i].action_class) is None ==> !at_least_as_strict(
            FieldModel::EnforcementRules(candidate),
            FieldModel::EnforcementRules(floor),
        ),
        at_least_as_strict(
            FieldModel::EnforcementRules(candidate),
            FieldModel::EnforcementRules(floor),
        ) ==> at_least_as_strict(
            FieldModel::EnforcementRules(candidate + more),
            FieldModel::EnforcementRules(floor),
        ),
{
    if rules_cover(candidate, floor) {
        assert forall|k: int| 0 <= k < floor.len() implies (first_rule(
            candidate + more,
            (#[trigger] floor[k]).action_class,
        ) matches Some(rule) && rule_covers(rule, floor[k])) by {
            lemma_first_rule_kept(candidate, more, floor[k].action_class);
        }
    }
}

proof fn lemma_first_rule_kept(
    rules: Seq<EnforcementRuleModel>,
    more: Seq<EnforcementRuleModel>,
    class: Tag,
)
    requires
        first_rule(rules, class) is Some,
    ensures
        first_rule(rules + more, class) == first_rule(rules, class),
    decreases rules.len(),
{
    if rules[0].action_class != class {
        assert((rules + more).drop_first() =~= rules.drop_first() + more);
        lemma_first_rule_kept(rules.drop_first(), more, class);
    }
}

/// A value in canonical form is at least as strict as itself.
pub proof fn law_strictness_is_reflexive(a: FieldModel)
    requires
        canonical(a),
    ensures
        at_least_as_strict(a, a),
{
    match a {
        FieldModel::EnforcementRules(x) => {
            assert forall|i: int| 0 <= i < x.len() implies (first_rule(
                x,
                (#[trigger] x[i]).action_class,
            ) matches Some(rule) && rule_covers(rule, x[i])) by {
                lemma_first_rule_ascending(x, i);
            }
        },
        _ => {},
    }
}

/// The common value of a value in canonical form and itself is that value.
pub proof fn law_meet_is_idempotent(a: FieldModel)
    requires
        canonical(a),
    ensures
        field_met(a, a) == a,
{
    law_strictness_is_reflexive(a);
    law_strictness_mirrors_the_meet(a, a);
}

/// The order of two values does not matter to their common value, as long as
/// no two different signal classes in them are written alike.
pub proof fn law_meet_is_commutative(a: FieldModel, b: FieldModel)
    requires
        same_shape(a, b),
        written_apart(signals_of(a) + signals_of(b)),
    ensures
        field_met(a, b) == field_met(b, a),
{
    match (a, b) {
        (FieldModel::AllowedContent(x), FieldModel::AllowedContent(y)) => {
            assert(x.intersect(y) =~= y.intersect(x));
        },
        (FieldModel::SensorsDisabled(x), FieldModel::SensorsDisabled(y)) => {
            assert(x.union(y) =~= y.union(x));
        },
        (FieldModel::RequiredSignals(x), FieldModel::RequiredSignals(y)) => {
            assert forall|t: Tag| (x + y).to_set().contains(t) == (y + x).to_set().contains(t) by {
                lemma_member_of_both(x, y, t);
                lemma_member_of_both(y, x, t);
            }
            assert((x + y).to_set() =~= (y + x).to_set());
            law_normalized_signals_depend_on_members_only(x + y, y + x);
        },
        (FieldModel::EnforcementRules(x), FieldModel::EnforcementRules(y)) => {
            law_merged_rules_are_canonical_and_strict(x + y);
            law_merged_rules_are_canonical_and_strict(y + x);
            assert forall|class: Tag| #[trigger] first_rule(rules_merged(x + y), class)
                == first_rule(rules_merged(y + x), class) by {
                lemma_merged_rule(x + y, class);
                lemma_merged_rule(y + x, class);
                lemma_strictest_of_both(x, y, class);
                lemma_strictest_of_both(y, x, class);
                lemma_strictest_class(x, class);
                lemma_strictest_class(y, class);
                match (strictest(x, class), strictest(y, class)) {
                    (Some(p), Some(q)) => {
                        lemma_rules_combine(p, q, q);
                    },
                    _ => {},
                }
            }
            lemma_rules_extensional(rules_merged(x + y), rules_merged(y + x));
        },
        _ => {},
    }
}

proof fn lemma_signals_associate(x: Seq<Tag>, y: Seq<Tag>, z: Seq<Tag>)
    requires
        written_apart(x + y + z),
    ensures
        normalized_signals(x + normalized_signals(y + z)) == normalized_signals(
            normalized_signals(x + y) + z,
        ),
{
    let all = x + y + z;
    let l = x + normalized_signals(y + z);
    let r = normalized_signals(x + y) + z;
    assert forall|t: Tag| #[trigger] all.contains(t) == l.contains(t) && all.contains(t)
        == r.contains(t) by {
        lemma_member_of_both(x + y, z, t);
        lemma_member_of_both(x, y, t);
        lemma_member_of_both(y, z, t);
        lemma_member_of_both(x, normalized_signals(y + z), t);
        lemma_member_of_both(normalized_signals(x + y), z, t);
        lemma_normalized_members(y + z, t);
        lemma_normalized_members(x + y, t);
    }
    lemma_written_apart(all, l);
    assert forall|t: Tag| l.to_set().contains(t) == r.to_set().contains(t) by {
        assert(all.contains(t) == l.contains(t));
    }
    assert(l.to_set() =~= r.to_set());
    law_normalized_signals_depend_on_members_only(l, r);
}

proof fn lemma_rules_associate(
    x: Seq<EnforcementRuleModel>,
    y: Seq<EnforcementRuleModel>,
    z: Seq<EnforcementRuleModel>,
)
    ensures
        rules_merged(x + rules_merged(y + z)) == rules_merged(rules_merged(x + y) + z),
{
    let yz = rules_merged(y + z);
    let xy = rules_merged(x + y);
    law_merged_rules_are_canonical_and_strict(y + z);
    law_merged_rules_are_canonical_and_strict(x + y);
    law_merged_rules_are_canonical_and_strict(x + yz);
    law_merged_rules_are_canonical_and_strict(xy + z);
    assert forall|class: Tag| #[trigger] first_rule(rules_merged(x + yz), class) == first_rule(
        rules_merged(xy + z),
        class,
    ) by {
        lemma_merged_rule(x + yz, class);
        lemma_merged_rule(xy + z, class);
        lemma_merged_rule(y + z, class);
        lemma_merged_rule(x + y, class);
        lemma_strictest_of_ascending(yz, class);
        lemma_strictest_of_ascending(xy, class);
        lemma_strictest_of_both(x, yz, class);
        lemma_strictest_of_both(xy, z, class);
        lemma_strictest_of_both(y, z, class);
        lemma_strictest_of_both(x, y, class);
        lemma_strictest_class(x, class);
        lemma_strictest_class(y, class);
        lemma_strictest_class(z, class);
        match (strictest(x, class), strictest(y, class), strictest(z, class)) {
            (Some(p), Some(q), Some(r)) => {
                lemma_rules_combine(p, q, r);
            },
            _ => {},
        }
    }
    lemma_rules_extensional(rules_merged(x + yz), rules_merged(xy + z));
}

/// Three values have one common value, whichever two are taken together
/// first, as long as no two different signal classes in them are written
/// alike.
pub proof fn law_meet_is_associative(a: FieldModel, b: FieldModel, c: FieldModel)
    requires
        same_shape(a, b),
        same_shape(b, c),
        written_apart(signals_of(a) + signals_of(b) + signals_of(c)),
    ensures
        field_met(a, field_met(b, c)) == field_met(field_met(a, b), c),
{
    match (a, b, c) {
        (
            FieldModel::AllowedContent(x),
            FieldModel::AllowedContent(y),
            FieldModel::AllowedContent(z),
        ) => {
            assert(x.intersect(y.intersect(z)) =~= x.intersect(y).intersect(z));
        },
        (
            FieldModel::SensorsDisabled(x),
            FieldModel::SensorsDisabled(y),
            FieldModel::SensorsDisabled(z),
        ) => {
            assert(x.union(y.union(z)) =~= x.union(y).union(z));
        },
        (
            FieldModel::RequiredSignals(x),
            FieldModel::RequiredSignals(y),
            FieldModel::RequiredSignals(z),
        ) => {
            lemma_signals_associate(x, y, z);
        },
        (
            FieldModel::EnforcementRules(x),
            FieldModel::EnforcementRules(y),
            FieldModel::EnforcementRules(z),
        ) => {
            lemma_rules_associate(x, y, z);
        },
        _ => {},
    }
}

/// The common value of two values is the least strict value that is at least
/// as strict as both.
pub proof fn law_meet_is_the_least_strict(a: FieldModel, b: FieldModel, c: FieldModel)
    requires
        same_shape(a, b),
        same_shape(c, a),
        at_least_as_strict(c, a),
        at_least_as_strict(c, b),
    ensures
        at_least_as_strict(c, field_met(a, b)),
{
    match (a, b, c) {
        (
            FieldModel::RequiredSignals(x),
            FieldModel::RequiredSignals(y),
            FieldModel::RequiredSignals(z),
        ) => {
            let m = normalized_signals(x + y);
            assert forall|i: int| 0 <= i < m.len() implies z.contains(#[trigger] m[i]) by {
                assert(m.contains(m[i]));
                lemma_normalized_members(x + y, m[i]);
                lemma_member_of_both(x, y, m[i]);
                if x.contains(m[i]) {
                    let k = choose|k: int| 0 <= k < x.len() && x[k] == m[i];
                    assert(z.contains(x[k]));
                } else {
                    let k = choose|k: int| 0 <= k < y.len() && y[k] == m[i];
                    assert(z.contains(y[k]));
                }
            }
        },
        (
            FieldModel::EnforcementRules(x),
            FieldModel::EnforcementRules(y),
            FieldModel::EnforcementRules(z),
        ) => {
            let both = x + y;
            let m = rules_merged(both);
            law_merged_rules_are_canonical_and_strict(both);
            assert forall|i: int| 0 <= i < m.len() implies (first_rule(
                z,
                (#[trigger] m[i]).action_class,
            ) matches Some(rule) && rule_covers(rule, m[i])) by {
                let class = m[i].action_class;
                lemma_first_rule_ascending(m, i);
                lemma_merged_rule(both, class);
                lemma_strictest_class(both, class);
                assert forall|k: int|
                    0 <= k < both.len() && (#[trigger] both[k]).action_class == class implies (
                first_rule(z, class) matches Some(rule) && rule_covers(rule, both[k])) by {
                    if k < x.len() {
                        assert(both[k] == x[k]);
                    } else {
                        assert(both[k] == y[k - x.len()]);
                    }
                }
                let k = choose|k: int|
                    0 <= k < both.len() && (#[trigger] both[k]).action_class == class;
                assert(first_rule(z, both[k].action_class) is Some);
                lemma_covers_strictest(first_rule(z, class).unwrap(), both, class);
            }
        },
        _ => {},
    }
}

/// The common value of two values is in canonical form, as long as no two
/// different signal classes in them are written alike.
pub proof fn law_meet_is_canonical(a: FieldModel, b: FieldModel)
    requires
        same_shape(a, b),
        written_apart(signals_of(a) + signals_of(b)),
    ensures
        canonical(field_met(a, b)),
{
    match (a, b) {
        (FieldModel::RequiredSignals(x), FieldModel::RequiredSignals(y)) => {
            lemma_normalized(x + y);
        },
        (FieldModel::EnforcementRules(x), FieldModel::EnforcementRules(y)) => {
            law_merged_rules_are_canonical_and_strict(x + y);
        },
        _ => {},
    }
}

/// Whether no two rules are for one action class.
pub open spec fn classes_differ(rules: Seq<EnforcementRuleModel>) -> bool {
    forall|i: int, j: int|
        #![trigger rules[i], rules[j]]
        0 <= i < j < rules.len() ==> rules[i].action_class != rules[j].action_class
}

/// Whether policy content lists no two different signal classes that are
/// written alike, and no two rules for one action class.
pub open spec fn unambiguous(content: PolicyContentModel) -> bool {
    &&& content.sensors.required_signals matches Some(s) ==> written_apart(s)
    &&& content.enforcement.rules matches Some(r) ==> classes_differ(r)
}

pub(crate) proof fn lemma_sorted_rules_ascend(rules: Seq<EnforcementRuleModel>)
    requires
        classes_differ(rules),
    ensures
        ascending::<EnforcementRule>(stably_sorted::<EnforcementRule>(rules)),
{
    broadcast use vstd::seq_lib::group_to_multiset_ensures;

    let sorted = stably_sorted::<EnforcementRule>(rules);
    law_stable_sort_is_sorted_permutation::<EnforcementRule>(rules);
    lemma_same_members(sorted, rules);
    assert(rules.no_duplicates());
    rules.lemma_multiset_has_no_duplicates();
    assert forall|x: EnforcementRuleModel|
        sorted.to_multiset().contains(x) implies #[trigger] sorted.to_multiset().count(x) == 1 by {}
    sorted.lemma_multiset_has_no_duplicates_conv();
    assert forall|i: int, j: int|
        #![trigger sorted[i], sorted[j]]
        0 <= i < j < sorted.len() implies key_before(
        EnforcementRule::sort_key(sorted[i]),
        EnforcementRule::sort_key(sorted[j]),
    ) by {
        assert(sorted.contains(sorted[i]) && sorted.contains(sorted[j]));
        assert(rules.contains(sorted[i]) && rules.contains(sorted[j]));
        let k = choose|k: int| 0 <= k < rules.len() && rules[k] == sorted[i];
        let l = choose|l: int| 0 <= l < rules.len() && rules[l] == sorted[j];
        assert(sorted[i] != sorted[j]);
        assert(k != l);
        if k < l {
            assert(rules[k].action_class != rules[l].action_class);
        } else {
            assert(rules[l].action_class != rules[k].action_class);
        }
        lemma_key_total(tag_key(sorted[i].action_class), tag_key(sorted[j].action_class));
        assert(nondecreasing::<EnforcementRule>(sorted));
    }
}

/// What is read of a field is in canonical form, unless the content is
/// ambiguous.
pub proof fn law_read_fields_are_canonical(content: PolicyContentModel, field: Tag)
    requires
        unambiguous(content),
    ensures
        field_of(content, field) matches Some(v) ==> canonical(v),
{
    if field.index == 5 {
        match content.sensors.required_signals {
            Some(s) => {
                lemma_normalized(s);
            },
            None => {},
        }
    } else if field.index == 6 {
        match content.enforcement.rules {
            Some(r) => {
                lemma_sorted_rules_ascend(r);
            },
            None => {},
        }
    }
}

} // verus!

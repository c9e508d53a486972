//! How outcomes, risks and tiers compare, and which value each risk class and
//! each verdict picks.
use vstd::prelude::*;

use super::cache::{floor, FreshnessTier, RiskClassTiers};
use super::content::{
    first_rule, normalized_signals, rule_outcome, EnforcementOutcome, EnforcementRuleModel,
    RedactionProfile, RiskClass, RiskClassSeconds, VerdictOutcomes,
};
use super::diagnostics::{any_error, DiagnosticSeverity, PolicyDiagnosticModel};
use super::laws::lemma_normalized_members;
use super::resolution_laws::{force, gravity};
use super::strictness::classes_differ;
use crate::capabilities::SignalClass;
use crate::evidence::Verdict;
use crate::json::json_string;
use crate::model::Tag;
use crate::order::{
    key_before, law_squeezing_keeps_the_order, law_stable_sort_is_sorted_permutation, stably_sorted,
    Sortable,
};
use crate::text::text_before;

verus! {

/// How stale a tier is: one without policy, then fresh, stale, and past all
/// grace.
pub open spec fn wear(tier: FreshnessTier) -> int {
    match tier {
        FreshnessTier::Unconfigured => 0,
        FreshnessTier::Fresh => 1,
        FreshnessTier::Stale => 2,
        FreshnessTier::GraceExpired => 3,
    }
}

/// Of two outcomes, risks, profiles or tiers, the stricter one is taken: the
/// one that goes further, is graver, redacts more or is staler.
pub proof fn law_the_stricter_of_two_is_taken(
    a: EnforcementOutcome,
    b: EnforcementOutcome,
    r: RiskClass,
    s: RiskClass,
    p: RedactionProfile,
    q: RedactionProfile,
    t: FreshnessTier,
    u: FreshnessTier,
)
    ensures
        EnforcementOutcome::stricter(a, b) == (if force(a) >= force(b) {
            a
        } else {
            b
        }),
        RiskClass::higher(r, s) == (if gravity(r) >= gravity(s) {
            r
        } else {
            s
        }),
        RedactionProfile::stricter(p, q) is Strict <==> p is Strict || q is Strict,
        FreshnessTier::stricter(t, u) == (if wear(t) >= wear(u) {
            t
        } else {
            u
        }),
        a.rank() >= b.rank() <==> force(a) >= force(b),
        r.rank() >= s.rank() <==> gravity(r) >= gravity(s),
        p.rank() >= q.rank() <==> (q is Strict ==> p is Strict),
        t.rank() >= u.rank() <==> wear(t) >= wear(u),
{
}

/// Each verdict has its own outcome, and each risk class its own limit and its
/// own tier.
pub proof fn law_each_class_has_its_own_value(
    o: VerdictOutcomes,
    s: RiskClassSeconds,
    t: RiskClassTiers,
)
    ensures
        o.outcome(Verdict::Verified) == o.verified,
        o.outcome(Verdict::Unverified) == o.unverified,
        o.outcome(Verdict::Contradicted) == o.contradicted,
        o.outcome(Verdict::Review) == o.review,
        o.outcome(Verdict::Unavailable) == o.unavailable,
        s.seconds(RiskClass::Low) == s.low,
        s.seconds(RiskClass::Elevated) == s.elevated,
        s.seconds(RiskClass::High) == s.high,
        s.seconds(RiskClass::Critical) == s.critical,
        t.tier(RiskClass::Low) == t.low,
        t.tier(RiskClass::Elevated) == t.elevated,
        t.tier(RiskClass::High) == t.high,
        t.tier(RiskClass::Critical) == t.critical,
{
}

/// Outcomes, limits and tiers are met one by one: of the outcomes the stricter,
/// of the limits the shorter, of the tiers the staler.
pub proof fn law_values_are_met_one_by_one(
    a: VerdictOutcomes,
    b: VerdictOutcomes,
    s: RiskClassSeconds,
    u: RiskClassSeconds,
    t: RiskClassTiers,
    v: RiskClassTiers,
)
    ensures
        forall|w: Verdict|
            force(#[trigger] VerdictOutcomes::met(a, b).outcome(w)) == (if force(a.outcome(w))
                >= force(b.outcome(w)) {
                force(a.outcome(w))
            } else {
                force(b.outcome(w))
            }),
        VerdictOutcomes::covers(a, b) <==> force(a.verified) >= force(b.verified) && force(
            a.unverified,
        ) >= force(b.unverified) && force(a.contradicted) >= force(b.contradicted) && force(
            a.review,
        ) >= force(b.review) && force(a.unavailable) >= force(b.unavailable),
        forall|r: RiskClass|
            (#[trigger] RiskClassSeconds::met(s, u).seconds(r)) == (if s.seconds(r) <= u.seconds(r) {
                s.seconds(r)
            } else {
                u.seconds(r)
            }),
        forall|r: RiskClass|
            wear(#[trigger] RiskClassTiers::met(t, v).tier(r)) == (if wear(t.tier(r)) >= wear(
                v.tier(r),
            ) {
                wear(t.tier(r))
            } else {
                wear(v.tier(r))
            }),
{
    assert(VerdictOutcomes::covers(a, b) ==> a.outcome(Verdict::Verified).rank() >= b.outcome(
        Verdict::Verified,
    ).rank() && a.outcome(Verdict::Unverified).rank() >= b.outcome(Verdict::Unverified).rank()
        && a.outcome(Verdict::Contradicted).rank() >= b.outcome(Verdict::Contradicted).rank()
        && a.outcome(Verdict::Review).rank() >= b.outcome(Verdict::Review).rank() && a.outcome(
        Verdict::Unavailable,
    ).rank() >= b.outcome(Verdict::Unavailable).rank());
}

/// Staleness asks for something exactly where it matters: past all grace a
/// block for critical actions and a warning for elevated and grave ones; while
/// stale a warning for grave and critical ones. Low risk is never held back.
pub proof fn law_floors_rise_with_risk_and_age(risk: RiskClass, tier: FreshnessTier)
    ensures
        floor(risk, tier) == Some(EnforcementOutcome::Block) <==> tier is GraceExpired
            && risk is Critical,
        floor(risk, tier) == Some(EnforcementOutcome::Warn) <==> (tier is GraceExpired && (
        risk is Elevated || risk is High)) || (tier is Stale && (risk is High || risk is Critical)),
        floor(risk, tier) is None <==> risk is Low || tier is Fresh || tier is Unconfigured || (
        tier is Stale && risk is Elevated),
{
}

proof fn lemma_rule_found(rules: Seq<EnforcementRuleModel>, i: int)
    requires
        classes_differ(rules),
        0 <= i < rules.len(),
    ensures
        first_rule(rules, rules[i].action_class) == Some(rules[i]),
    decreases rules.len(),
{
    if i > 0 {
        let rest = rules.drop_first();
        assert(rules[0].action_class != rules[i].action_class);
        assert(rest[i - 1] == rules[i]);
        assert forall|x: int, y: int|
            #![trigger rest[x], rest[y]]
            0 <= x < y < rest.len() implies rest[x].action_class != rest[y].action_class by {
            assert(rules[x + 1].action_class != rules[y + 1].action_class);
        }
        lemma_rule_found(rest, i - 1);
    }
}

/// An action is answered by the rule for its class, wherever that stands.
pub proof fn law_actions_are_answered_by_their_rule(
    rules: Seq<EnforcementRuleModel>,
    i: int,
    verdict: Verdict,
)
    requires
        classes_differ(rules),
        0 <= i < rules.len(),
    ensures
        rule_outcome(rules, rules[i].action_class, verdict) == (match verdict {
            Verdict::Verified => rules[i].outcomes.verified,
            Verdict::Unverified => rules[i].outcomes.unverified,
            Verdict::Contradicted => rules[i].outcomes.contradicted,
            Verdict::Review => rules[i].outcomes.review,
            Verdict::Unavailable => rules[i].outcomes.unavailable,
        }),
{
    lemma_rule_found(rules, i);
}

/// An action whose class has no rule is only observed.
pub proof fn law_actions_without_a_rule_are_only_observed(
    rules: Seq<EnforcementRuleModel>,
    class: Tag,
    verdict: Verdict,
)
    requires
        forall|i: int| 0 <= i < rules.len() ==> (#[trigger] rules[i]).action_class != class,
    ensures
        rule_outcome(rules, class, verdict) is ObserveOnly,
    decreases rules.len(),
{
    if rules.len() > 0 {
        let rest = rules.drop_first();
        assert forall|i: int| 0 <= i < rest.len() implies (#[trigger] rest[i]).action_class
            != class by {
            assert(rest[i] == rules[i + 1]);
        }
        assert(rules[0].action_class != class);
        law_actions_without_a_rule_are_only_observed(rest, class, verdict);
    }
}

/// A report has errors exactly if one of its notes is an error.
pub proof fn law_reports_fail_by_their_errors(notes: Seq<PolicyDiagnosticModel>)
    ensures
        any_error(notes) <==> exists|i: int|
            0 <= i < notes.len() && (#[trigger] notes[i]).severity is Error,
{
    if exists|i: int| 0 <= i < notes.len() && (#[trigger] notes[i]).severity is Error {
        let i = choose|i: int| 0 <= i < notes.len() && (#[trigger] notes[i]).severity is Error;
        assert(notes[i].severity == DiagnosticSeverity::Error);
    }
}

/// Required signals are listed by how they are written, none twice in a row,
/// and are the same as before.
pub proof fn law_signals_are_listed_by_their_text(signals: Seq<Tag>, class: Tag)
    ensures
        ({
            let listed = normalized_signals(signals);
            &&& listed.contains(class) <==> signals.contains(class)
            &&& forall|i: int, j: int|
                #![trigger listed[i], listed[j]]
                0 <= i < j < listed.len() ==> !text_before(
                    json_string(SignalClass::wire_text(listed[j])),
                    json_string(SignalClass::wire_text(listed[i])),
                )
            &&& forall|i: int| 0 < i < listed.len() ==> #[trigger] listed[i] != listed[i - 1]
        }),
{
    let sorted = stably_sorted::<SignalClass>(signals);
    law_stable_sort_is_sorted_permutation::<SignalClass>(signals);
    law_squeezing_keeps_the_order::<SignalClass>(sorted);
    lemma_normalized_members(signals, class);
    let listed = normalized_signals(signals);
    assert forall|i: int, j: int|
        #![trigger listed[i], listed[j]]
        0 <= i < j < listed.len() implies !text_before(
        json_string(SignalClass::wire_text(listed[j])),
        json_string(SignalClass::wire_text(listed[i])),
    ) by {
        assert(!key_before(
            <SignalClass as Sortable>::sort_key(listed[j]),
            <SignalClass as Sortable>::sort_key(listed[i]),
        ));
    }
}

} // verus!

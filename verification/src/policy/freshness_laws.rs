//! What the freshness of a cached policy means, instant by instant, and what
//! it does to enforcement.
use vstd::prelude::*;

use super::cache::{
    enforced_outcome, floored, freshness_tier, generation_freshness, strictest_tiers, CachedBundleRefModel,
    FreshnessTier, MemberFreshnessModel, RiskClassTiers,
};
use super::content::{
    EnforcementOutcome, EnforcementRuleModel, RiskClass, RiskClassSeconds,
};
use crate::evidence::Verdict;
use crate::model::Tag;
use crate::time::Timestamp;

verus! {

/// Whether an instant lies after another one plus some seconds. The fraction
/// of a leap second is taken as that of the second before once it is moved.
pub open spec fn past(now: Timestamp, from: Timestamp, seconds: int) -> bool {
    let fraction = if seconds > 0 && from.parts().1 >= 1_000_000_000 {
        from.parts().1 - 1_000_000_000
    } else {
        from.parts().1
    };
    now.parts().0 > from.parts().0 + seconds || (now.parts().0 == from.parts().0 + seconds
        && now.parts().1 > fraction)
}

/// Whether a tier is the right one for a member that may be `seconds` old.
pub open spec fn tier_fits(
    tier: FreshnessTier,
    m: CachedBundleRefModel,
    seconds: u32,
    grace: u32,
    now: Timestamp,
) -> bool {
    &&& tier is GraceExpired <==> past(now, m.confirmed_at, seconds + grace)
    &&& tier is Stale <==> !past(now, m.confirmed_at, seconds + grace) && (past(
        now,
        m.confirmed_at,
        seconds as int,
    ) || past(now, m.expires_at, 0))
    &&& tier is Fresh <==> !past(now, m.confirmed_at, seconds + grace) && !past(
        now,
        m.confirmed_at,
        seconds as int,
    ) && !past(now, m.expires_at, 0)
}

proof fn lemma_tier_fits(m: CachedBundleRefModel, seconds: u32, grace: u32, now: Timestamp)
    requires
        m.confirmed_at.parts().1 < 2_000_000_000,
    ensures
        tier_fits(
            freshness_tier(m.confirmed_at, m.expires_at, seconds, grace, now),
            m,
            seconds,
            grace,
            now,
        ),
{
}

/// Every risk class of every member is judged by its own age limit: its grace
/// has expired once the limit and the grace have passed since confirmation,
/// it is stale once the limit or the bundle's expiry has passed, and it is
/// fresh until then.
pub proof fn law_each_risk_class_has_its_own_limit(
    members: Seq<CachedBundleRefModel>,
    ever_configured: bool,
    max_age: RiskClassSeconds,
    grace: u32,
    now: Timestamp,
    i: int,
)
    requires
        0 <= i < members.len(),
        members[i].confirmed_at.parts().1 < 2_000_000_000,
    ensures
        ({
            let f = generation_freshness(members, ever_configured, max_age, grace, now).members[i];
            &&& tier_fits(f.tier_by_risk.low, members[i], max_age.low, grace, now)
            &&& tier_fits(f.tier_by_risk.elevated, members[i], max_age.elevated, grace, now)
            &&& tier_fits(f.tier_by_risk.high, members[i], max_age.high, grace, now)
            &&& tier_fits(f.tier_by_risk.critical, members[i], max_age.critical, grace, now)
        }),
{
    lemma_tier_fits(members[i], max_age.low, grace, now);
    lemma_tier_fits(members[i], max_age.elevated, grace, now);
    lemma_tier_fits(members[i], max_age.high, grace, now);
    lemma_tier_fits(members[i], max_age.critical, grace, now);
}

/// Every member is reported, in order, under its own identifiers and times.
pub proof fn law_every_member_is_reported(
    members: Seq<CachedBundleRefModel>,
    ever_configured: bool,
    max_age: RiskClassSeconds,
    grace: u32,
    now: Timestamp,
)
    ensures
        ({
            let f = generation_freshness(members, ever_configured, max_age, grace, now);
            &&& f.evaluated_at == now
            &&& f.members.len() == members.len()
            &&& forall|i: int|
                0 <= i < members.len() ==> {
                    &&& (#[trigger] f.members[i]).bundle_id == members[i].bundle_id
                    &&& f.members[i].policy_id == members[i].policy_id
                    &&& f.members[i].confirmed_at == members[i].confirmed_at
                    &&& f.members[i].expires_at == members[i].expires_at
                }
        }),
{
}

/// The age of a member, in whole seconds. Without leap seconds it is the
/// greatest number of seconds that have gone by since its confirmation, and
/// nothing for one that was confirmed later than now.
pub proof fn law_ages_count_whole_seconds(
    members: Seq<CachedBundleRefModel>,
    ever_configured: bool,
    max_age: RiskClassSeconds,
    grace: u32,
    now: Timestamp,
    i: int,
)
    requires
        0 <= i < members.len(),
        0 <= now.parts().1 < 1_000_000_000,
        0 <= members[i].confirmed_at.parts().1 < 1_000_000_000,
        0 <= now.parts().0 - members[i].confirmed_at.parts().0 <= u64::MAX
            || now.parts().0 < members[i].confirmed_at.parts().0,
    ensures
        ({
            let f = generation_freshness(members, ever_configured, max_age, grace, now).members[i];
            let c = members[i].confirmed_at;
            &&& past(c, now, 0) ==> f.age_seconds == 0
            &&& !past(c, now, 0) ==> !past(c, now, -(f.age_seconds as int)) && past(
                c,
                now,
                -(f.age_seconds + 1),
            )
        }),
{
}

spec fn tier_at(tiers: RiskClassTiers, risk: RiskClass) -> FreshnessTier {
    match risk {
        RiskClass::Low => tiers.low,
        RiskClass::Elevated => tiers.elevated,
        RiskClass::High => tiers.high,
        RiskClass::Critical => tiers.critical,
    }
}

proof fn lemma_strictest(members: Seq<MemberFreshnessModel>, risk: RiskClass)
    requires
        members.len() > 0,
    ensures
        ({
            let t = tier_at(strictest_tiers(members), risk);
            &&& t is GraceExpired <==> exists|i: int|
                0 <= i < members.len() && tier_at((#[trigger] members[i]).tier_by_risk, risk) is GraceExpired
            &&& t is Stale || t is GraceExpired <==> exists|i: int|
                0 <= i < members.len() && (tier_at((#[trigger] members[i]).tier_by_risk, risk) is Stale
                    || tier_at(members[i].tier_by_risk, risk) is GraceExpired)
            &&& t is Unconfigured <==> forall|i: int|
                0 <= i < members.len() ==> tier_at((#[trigger] members[i]).tier_by_risk, risk) is Unconfigured
        }),
    decreases members.len(),
{
    let last = members.len() - 1;
    assert(members[last] == members.last());
    if members.len() > 1 {
        let front = members.drop_last();
        lemma_strictest(front, risk);
        assert forall|i: int| 0 <= i < front.len() implies front[i] == #[trigger] members[i] by {}
        let t = tier_at(strictest_tiers(front), risk);
        if t is GraceExpired {
            let i = choose|i: int|
                0 <= i < front.len() && tier_at((#[trigger] front[i]).tier_by_risk, risk) is GraceExpired;
            assert(members[i] == front[i]);
        }
        if t is Stale {
            let i = choose|i: int|
                0 <= i < front.len() && (tier_at((#[trigger] front[i]).tier_by_risk, risk) is Stale
                    || tier_at(front[i].tier_by_risk, risk) is GraceExpired);
            assert(members[i] == front[i]);
        }
        if !(t is Unconfigured) {
            let i = choose|i: int|
                0 <= i < front.len() && !(tier_at((#[trigger] front[i]).tier_by_risk, risk) is Unconfigured);
            assert(members[i] == front[i]);
        }
    }
}

/// Whether a tier is that of the stalest of some tiers.
pub open spec fn stalest(tier: FreshnessTier, tiers: Seq<FreshnessTier>) -> bool {
    &&& tier is GraceExpired <==> tiers.contains(FreshnessTier::GraceExpired)
    &&& tier is Stale <==> !tiers.contains(FreshnessTier::GraceExpired) && tiers.contains(
        FreshnessTier::Stale,
    )
}

/// A generation is, for each risk class, as fresh as its stalest member. One
/// without members has expired if there ever was a policy, and is
/// unconfigured otherwise.
pub proof fn law_generations_go_by_their_stalest_member(
    members: Seq<CachedBundleRefModel>,
    ever_configured: bool,
    max_age: RiskClassSeconds,
    grace: u32,
    now: Timestamp,
)
    ensures
        ({
            let f = generation_freshness(members, ever_configured, max_age, grace, now);
            let t = f.tier_by_risk;
            if members.len() > 0 {
                &&& stalest(t.low, f.members.map_values(|m: MemberFreshnessModel| m.tier_by_risk.low))
                &&& stalest(
                    t.elevated,
                    f.members.map_values(|m: MemberFreshnessModel| m.tier_by_risk.elevated),
                )
                &&& stalest(
                    t.high,
                    f.members.map_values(|m: MemberFreshnessModel| m.tier_by_risk.high),
                )
                &&& stalest(
                    t.critical,
                    f.members.map_values(|m: MemberFreshnessModel| m.tier_by_risk.critical),
                )
            } else if ever_configured {
                t.low is GraceExpired && t.elevated is GraceExpired && t.high is GraceExpired
                    && t.critical is GraceExpired
            } else {
                t.low is Unconfigured && t.elevated is Unconfigured && t.high is Unconfigured
                    && t.critical is Unconfigured
            }
        }),
{
    let f = generation_freshness(members, ever_configured, max_age, grace, now);
    if members.len() > 0 {
        lemma_stalest_of(f.members, RiskClass::Low);
        lemma_stalest_of(f.members, RiskClass::Elevated);
        lemma_stalest_of(f.members, RiskClass::High);
        lemma_stalest_of(f.members, RiskClass::Critical);
        assert(f.members.map_values(|m: MemberFreshnessModel| m.tier_by_risk.low)
            =~= f.members.map_values(
            |m: MemberFreshnessModel| tier_at(m.tier_by_risk, RiskClass::Low),
        ));
        assert(f.members.map_values(|m: MemberFreshnessModel| m.tier_by_risk.elevated)
            =~= f.members.map_values(
            |m: MemberFreshnessModel| tier_at(m.tier_by_risk, RiskClass::Elevated),
        ));
        assert(f.members.map_values(|m: MemberFreshnessModel| m.tier_by_risk.high)
            =~= f.members.map_values(
            |m: MemberFreshnessModel| tier_at(m.tier_by_risk, RiskClass::High),
        ));
        assert(f.members.map_values(|m: MemberFreshnessModel| m.tier_by_risk.critical)
            =~= f.members.map_values(
            |m: MemberFreshnessModel| tier_at(m.tier_by_risk, RiskClass::Critical),
        ));
    }
}

proof fn lemma_stalest_of(members: Seq<MemberFreshnessModel>, risk: RiskClass)
    requires
        members.len() > 0,
    ensures
        stalest(
            tier_at(strictest_tiers(members), risk),
            members.map_values(|m: MemberFreshnessModel| tier_at(m.tier_by_risk, risk)),
        ),
{
    lemma_strictest(members, risk);
    let tiers = members.map_values(|m: MemberFreshnessModel| tier_at(m.tier_by_risk, risk));
    assert forall|i: int| 0 <= i < members.len() implies tiers[i] == tier_at(
        (#[trigger] members[i]).tier_by_risk,
        risk,
    ) by {}
    if tiers.contains(FreshnessTier::GraceExpired) {
        let i = choose|i: int| 0 <= i < tiers.len() && tiers[i] == FreshnessTier::GraceExpired;
        assert(tier_at(members[i].tier_by_risk, risk) is GraceExpired);
    }
    if tiers.contains(FreshnessTier::Stale) {
        let i = choose|i: int| 0 <= i < tiers.len() && tiers[i] == FreshnessTier::Stale;
        assert(tier_at(members[i].tier_by_risk, risk) is Stale);
    }
    let t = tier_at(strictest_tiers(members), risk);
    if t is GraceExpired {
        let i = choose|i: int|
            0 <= i < members.len() && tier_at((#[trigger] members[i]).tier_by_risk, risk) is GraceExpired;
        assert(tiers[i] == FreshnessTier::GraceExpired);
    } else if t is Stale {
        let i = choose|i: int|
            0 <= i < members.len() && (tier_at((#[trigger] members[i]).tier_by_risk, risk) is Stale
                || tier_at(members[i].tier_by_risk, risk) is GraceExpired);
        if tier_at(members[i].tier_by_risk, risk) is GraceExpired {
            assert(tiers[i] == FreshnessTier::GraceExpired);
        }
        assert(tiers[i] == FreshnessTier::Stale);
    }
}

/// Staleness blocks critical actions once the grace is over and nothing else;
/// it warns of high and critical actions once the policy is stale and of
/// elevated ones once the grace is over; everything else is enforced as
/// resolved.
pub proof fn law_staleness_blocks_and_warns(
    resolved: EnforcementOutcome,
    risk: RiskClass,
    tier: FreshnessTier,
)
    ensures
        ({
            let enforced = floored(resolved, risk, tier);
            let blocked = risk is Critical && tier is GraceExpired;
            let warned = (tier is Stale && (risk is High || risk is Critical)) || (
            tier is GraceExpired && !(risk is Low));
            &&& enforced is Block <==> resolved is Block || blocked
            &&& enforced is Warn <==> !blocked && (resolved is Warn || (warned && !(
            resolved is Block)))
            &&& enforced is Allow <==> resolved is Allow && !blocked && !warned
            &&& enforced is ObserveOnly <==> resolved is ObserveOnly && !blocked && !warned
        }),
{
}

/// An action is enforced by the first rule for its class: by the outcome that
/// rule has for the verdict, under the staleness of that rule's risk class.
pub proof fn law_actions_go_by_their_own_rule(
    rules: Seq<EnforcementRuleModel>,
    tiers: RiskClassTiers,
    class: Tag,
    verdict: Verdict,
    i: int,
)
    requires
        0 <= i < rules.len(),
        rules[i].action_class == class,
        forall|j: int| 0 <= j < i ==> (#[trigger] rules[j]).action_class != class,
    ensures
        ({
            let tier = match rules[i].risk_class {
                RiskClass::Low => tiers.low,
                RiskClass::Elevated => tiers.elevated,
                RiskClass::High => tiers.high,
                RiskClass::Critical => tiers.critical,
            };
            let resolved = match verdict {
                Verdict::Verified => rules[i].outcomes.verified,
                Verdict::Unverified => rules[i].outcomes.unverified,
                Verdict::Contradicted => rules[i].outcomes.contradicted,
                Verdict::Review => rules[i].outcomes.review,
                Verdict::Unavailable => rules[i].outcomes.unavailable,
            };
            enforced_outcome(rules, tiers, class, verdict) == floored(
                resolved,
                rules[i].risk_class,
                tier,
            )
        }),
    decreases rules.len(),
{
    if i > 0 {
        let rest = rules.drop_first();
        assert(rules[0].action_class != class);
        assert(rest[i - 1] == rules[i]);
        assert forall|j: int| 0 <= j < i - 1 implies (#[trigger] rest[j]).action_class != class by {
            assert(rest[j] == rules[j + 1]);
        }
        law_actions_go_by_their_own_rule(rest, tiers, class, verdict, i - 1);
    }
}

/// Without a rule for its class an action is only observed, under every
/// verdict and however stale the policy is.
pub proof fn law_actions_without_a_rule_are_observed(
    rules: Seq<EnforcementRuleModel>,
    tiers: RiskClassTiers,
    class: Tag,
    verdict: Verdict,
)
    requires
        forall|j: int| 0 <= j < rules.len() ==> (#[trigger] rules[j]).action_class != class,
    ensures
        enforced_outcome(rules, tiers, class, verdict) is ObserveOnly,
    decreases rules.len(),
{
    if rules.len() > 0 {
        let rest = rules.drop_first();
        assert(rules[0].action_class != class);
        assert forall|j: int| 0 <= j < rest.len() implies (#[trigger] rest[j]).action_class
            != class by {
            assert(rest[j] == rules[j + 1]);
        }
        law_actions_without_a_rule_are_observed(rest, tiers, class, verdict);
    }
}

} // verus!

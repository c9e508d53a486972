//! What makes a requirement met, and what becomes of a claim, stated on the
//! evidence itself.
use vstd::prelude::*;

use super::{
    assessment, blocks, claimed, claims_of, composed, composed_from, contract_problem,
    contract_problem_from, effective, evaluated, first_assessments, ids_differ, in_key_order,
    keeps_trust_classes, kept_apart, lemma_first_assessments, lemma_sharpest, lone_claims, qualifying, rejected, rejection,
    requirement_assessment, requirement_assessments, sharpest, taken, weakening,
    CandidateModel, Case, ClaimClassIdModel, ContractErrorModel, EpistemicContractModel,
    EvidenceRequirementModel, IndependenceRuleModel, RejectedEvidence, RejectionReason,
    RequirementAssessmentModel, RequirementLevelModel,
};
use crate::graph::FreshnessWindow;
use crate::ident::Uuid;
use crate::model::{known_tag, Tag};
use crate::time::{rfc3339, whole_seconds, Timestamp};

verus! {

/// Whether an instant is no later than another one.
pub open spec fn not_after(a: Timestamp, b: Timestamp) -> bool {
    a.parts().0 < b.parts().0 || (a.parts().0 == b.parts().0 && a.parts().1 <= b.parts().1)
}

/// Ages count whole seconds: the part of a second that is over does not count.
pub proof fn law_ages_are_whole_seconds(later: Timestamp, earlier: Timestamp)
    requires
        0 <= later.parts().1 < 1_000_000_000,
        0 <= earlier.parts().1 < 1_000_000_000,
        not_after(earlier, later),
    ensures
        ({
            let age = whole_seconds(later.parts(), earlier.parts());
            let nanos = (later.parts().0 - earlier.parts().0) * 1_000_000_000 + later.parts().1
                - earlier.parts().1;
            age * 1_000_000_000 <= nanos < (age + 1) * 1_000_000_000
        }),
{
}

/// Whether a requirement accepts the recorded source of a candidate.
pub open spec fn trusted(req: EvidenceRequirementModel, c: CandidateModel) -> bool {
    exists|class: Tag|
        c.trust_class == Some(class) && #[trigger] req.acceptable_trust_classes.contains(class)
}

/// Whether the age of a candidate cannot be told: one of the two times cannot
/// be read.
pub open spec fn unreadable(
    req: EvidenceRequirementModel,
    claimed_at: Seq<char>,
    c: CandidateModel,
) -> bool {
    req.freshness is Perishable && (rfc3339(c.observed_at) is None || rfc3339(claimed_at) is None)
}

/// Whether a candidate was observed only after the claim.
pub open spec fn too_late(
    req: EvidenceRequirementModel,
    claimed_at: Seq<char>,
    c: CandidateModel,
) -> bool {
    match (req.freshness, rfc3339(c.observed_at), rfc3339(claimed_at)) {
        (FreshnessWindow::Perishable { .. }, Some(observed), Some(at)) => !not_after(observed, at)
            || whole_seconds(at.parts(), observed.parts()) < 0,
        _ => false,
    }
}

/// Whether a candidate is older than a requirement allows.
pub open spec fn too_old(
    req: EvidenceRequirementModel,
    claimed_at: Seq<char>,
    c: CandidateModel,
) -> bool {
    match (req.freshness, rfc3339(c.observed_at), rfc3339(claimed_at)) {
        (FreshnessWindow::Perishable { max_age_seconds }, Some(observed), Some(at)) => !too_late(
            req,
            claimed_at,
            c,
        ) && whole_seconds(at.parts(), observed.parts()) > max_age_seconds,
        _ => false,
    }
}

/// Whether the age of a candidate is within what a requirement allows. Facts
/// that do not age always are.
pub open spec fn in_time(
    req: EvidenceRequirementModel,
    claimed_at: Seq<char>,
    c: CandidateModel,
) -> bool {
    match req.freshness {
        FreshnessWindow::Durable => true,
        FreshnessWindow::Perishable { max_age_seconds } => {
            &&& rfc3339(c.observed_at) matches Some(observed)
            &&& rfc3339(claimed_at) matches Some(at)
            &&& not_after(observed, at)
            &&& 0 <= whole_seconds(at.parts(), observed.parts()) <= max_age_seconds
        },
    }
}

/// Whether a candidate counts toward a requirement: it is of the kind asked
/// for, is not excluded, comes from an accepted source, and is in time.
pub open spec fn sound(
    req: EvidenceRequirementModel,
    claimed_at: Seq<char>,
    excluded: Seq<Uuid>,
    c: CandidateModel,
) -> bool {
    &&& c.kind == req.evidence_kind
    &&& !excluded.contains(c.id)
    &&& trusted(req, c)
    &&& in_time(req, claimed_at, c)
}

proof fn lemma_trusted(req: EvidenceRequirementModel, c: CandidateModel)
    ensures
        trusted(req, c) <==> (c.trust_class matches Some(class)
            && req.acceptable_trust_classes.contains(class)),
{
    if c.trust_class is Some {
        let class = c.trust_class.unwrap();
        assert(req.acceptable_trust_classes.contains(class) ==> trusted(req, c));
    }
}

proof fn lemma_sound(
    req: EvidenceRequirementModel,
    claimed_at: Seq<char>,
    excluded: Seq<Uuid>,
    c: CandidateModel,
)
    ensures
        sound(req, claimed_at, excluded, c) <==> c.kind == req.evidence_kind && rejection(
            req,
            claimed_at,
            excluded,
            c,
        ) is None,
        rejection(req, claimed_at, excluded, c) == Some(
            RejectionReason::ClaimedByIndependentRequirement,
        ) <==> excluded.contains(c.id),
        rejection(req, claimed_at, excluded, c) == Some(RejectionReason::WrongTrustClass)
            <==> !excluded.contains(c.id) && !trusted(req, c),
        rejection(req, claimed_at, excluded, c) == Some(RejectionReason::Stale)
            <==> !excluded.contains(c.id) && trusted(req, c) && too_old(req, claimed_at, c),
        rejection(req, claimed_at, excluded, c) == Some(RejectionReason::IndeterminateFreshness)
            <==> !excluded.contains(c.id) && trusted(req, c) && (unreadable(req, claimed_at, c)
            || too_late(req, claimed_at, c)),
{
    lemma_trusted(req, c);
}

/// Whether `at` lists positions of candidates that count, in order.
pub open spec fn sound_at(
    req: EvidenceRequirementModel,
    claimed_at: Seq<char>,
    excluded: Seq<Uuid>,
    candidates: Seq<CandidateModel>,
    at: Seq<int>,
) -> bool {
    &&& forall|k: int|
        0 <= k < at.len() ==> 0 <= #[trigger] at[k] < candidates.len() && sound(
            req,
            claimed_at,
            excluded,
            candidates[at[k]],
        )
    &&& forall|j: int, k: int|
        #![trigger at[j], at[k]]
        0 <= j < k < at.len() ==> at[j] < at[k]
}

proof fn lemma_sound_counted(
    req: EvidenceRequirementModel,
    claimed_at: Seq<char>,
    excluded: Seq<Uuid>,
    candidates: Seq<CandidateModel>,
    at: Seq<int>,
)
    requires
        sound_at(req, claimed_at, excluded, candidates, at),
    ensures
        at.len() <= qualifying(req, claimed_at, excluded, candidates).len(),
    decreases candidates.len(),
{
    if candidates.len() == 0 {
        if at.len() > 0 {
            assert(0 <= at[0] < candidates.len());
        }
    } else {
        let front = candidates.drop_last();
        let n = candidates.len() - 1;
        lemma_sound(req, claimed_at, excluded, candidates[n]);
        assert(candidates.last() == candidates[n]);
        if at.len() > 0 && at.last() == n {
            let rest = at.drop_last();
            assert forall|k: int| 0 <= k < rest.len() implies 0 <= #[trigger] rest[k] < front.len()
                && sound(req, claimed_at, excluded, front[rest[k]]) by {
                assert(rest[k] == at[k] && at[k] < at[at.len() - 1]);
                assert(front[at[k]] == candidates[at[k]]);
            }
            lemma_sound_counted(req, claimed_at, excluded, front, rest);
            assert(sound(req, claimed_at, excluded, candidates[at[at.len() - 1]]));
        } else {
            assert forall|k: int| 0 <= k < at.len() implies 0 <= #[trigger] at[k] < front.len()
                && sound(req, claimed_at, excluded, front[at[k]]) by {
                if k < at.len() - 1 {
                    assert(at[k] < at[at.len() - 1]);
                }
                assert(front[at[k]] == candidates[at[k]]);
            }
            lemma_sound_counted(req, claimed_at, excluded, front, at);
        }
    }
}

/// Whether `at` lists the positions of all candidates that count.
spec fn all_sound_at(
    req: EvidenceRequirementModel,
    claimed_at: Seq<char>,
    excluded: Seq<Uuid>,
    candidates: Seq<CandidateModel>,
    at: Seq<int>,
) -> bool {
    &&& sound_at(req, claimed_at, excluded, candidates, at)
    &&& forall|i: int|
        0 <= i < candidates.len() && sound(
            req,
            claimed_at,
            excluded,
            #[trigger] candidates[i],
        ) ==> at.contains(i)
    &&& qualifying(req, claimed_at, excluded, candidates).len() == at.len()
    &&& forall|k: int|
        0 <= k < at.len() ==> qualifying(req, claimed_at, excluded, candidates)[k]
            == candidates[#[trigger] at[k]].id
}

proof fn lemma_all_sound(
    req: EvidenceRequirementModel,
    claimed_at: Seq<char>,
    excluded: Seq<Uuid>,
    candidates: Seq<CandidateModel>,
) -> (at: Seq<int>)
    ensures
        all_sound_at(req, claimed_at, excluded, candidates, at),
    decreases candidates.len(),
{
    if candidates.len() == 0 {
        Seq::empty()
    } else {
        let front = candidates.drop_last();
        let n = candidates.len() - 1;
        let before = lemma_all_sound(req, claimed_at, excluded, front);
        lemma_sound(req, claimed_at, excluded, candidates[n]);
        assert(candidates.last() == candidates[n]);
        let at = if sound(req, claimed_at, excluded, candidates[n]) {
            before.push(n)
        } else {
            before
        };
        assert forall|k: int| 0 <= k < at.len() implies 0 <= #[trigger] at[k] < candidates.len()
            && sound(req, claimed_at, excluded, candidates[at[k]]) by {
            if k < before.len() {
                assert(at[k] == before[k]);
                assert(front[before[k]] == candidates[before[k]]);
            }
        }
        assert forall|j: int, k: int|
            #![trigger at[j], at[k]]
            0 <= j < k < at.len() implies at[j] < at[k] by {
            assert(at[j] == before[j]);
            if k < before.len() {
                assert(at[k] == before[k]);
            }
        }
        assert forall|i: int|
            0 <= i < candidates.len() && sound(
                req,
                claimed_at,
                excluded,
                #[trigger] candidates[i],
            ) implies at.contains(i) by {
            if i < n {
                assert(front[i] == candidates[i]);
                let k = choose|k: int| 0 <= k < before.len() && before[k] == i;
                assert(at[k] == i);
            } else {
                assert(at[at.len() - 1] == i);
            }
        }
        assert forall|k: int| 0 <= k < at.len() implies qualifying(
            req,
            claimed_at,
            excluded,
            candidates,
        )[k] == candidates[#[trigger] at[k]].id by {
            if k < before.len() {
                assert(at[k] == before[k]);
                assert(front[before[k]] == candidates[before[k]]);
            }
        }
        at
    }
}

/// Whether a requirement's level binds under some conditions: a conditional one
/// does only where its condition is among them.
pub open spec fn binds(level: RequirementLevelModel, conditions: Seq<Seq<char>>) -> bool {
    level matches RequirementLevelModel::Conditional { condition } ==> conditions.contains(condition)
}

/// Enough candidates that count satisfy a requirement: every one of the kind
/// asked for that is not excluded, comes from any of the accepted sources and
/// is in time counts, wherever it stands among the candidates.
pub proof fn law_enough_sound_evidence_satisfies(
    req: EvidenceRequirementModel,
    case: Case,
    excluded: Seq<Uuid>,
    at: Seq<int>,
)
    requires
        binds(req.level, case.conditions),
        sound_at(req, case.claimed_at, excluded, case.candidates, at),
        at.len() >= req.min_coverage.min_items,
    ensures
        requirement_assessment(req, case, excluded).state == known_tag(0),
        evaluated(req, case.claimed_at, excluded, case.candidates) is Satisfied,
{
    lemma_sound_counted(req, case.claimed_at, excluded, case.candidates, at);
}

/// A satisfied requirement rests on as many candidates as it needs: the first
/// ones that count, in their order, and those are what it matches.
pub proof fn law_satisfied_rests_on_the_first_sound_evidence(
    req: EvidenceRequirementModel,
    case: Case,
    excluded: Seq<Uuid>,
) -> (at: Seq<int>)
    requires
        requirement_assessment(req, case, excluded).state == known_tag(0),
    ensures
        binds(req.level, case.conditions),
        sound_at(req, case.claimed_at, excluded, case.candidates, at),
        at.len() == req.min_coverage.min_items,
        requirement_assessment(req, case, excluded).matched_evidence.len() == at.len(),
        forall|k: int|
            0 <= k < at.len() ==> requirement_assessment(req, case, excluded).matched_evidence[k]
                == case.candidates[#[trigger] at[k]].id,
        forall|i: int, k: int|
            #![trigger case.candidates[i], at[k]]
            0 <= k < at.len() && 0 <= i <= at[k] && sound(
                req,
                case.claimed_at,
                excluded,
                case.candidates[i],
            ) ==> at.contains(i),
{
    let all = lemma_all_sound(req, case.claimed_at, excluded, case.candidates);
    let n = req.min_coverage.min_items as int;
    let at = all.take(n);
    assert forall|i: int, k: int|
        #![trigger case.candidates[i], at[k]]
        0 <= k < at.len() && 0 <= i <= at[k] && sound(
            req,
            case.claimed_at,
            excluded,
            case.candidates[i],
        ) implies at.contains(i) by {
        let j = choose|j: int| 0 <= j < all.len() && all[j] == i;
        assert(at[k] == all[k]);
        if j > k {
            assert(all[k] < all[j]);
        }
        assert(at[j] == i);
    }
    at
}

/// What a requirement matches came from a source it accepts: the recorded trust
/// class is a member of its list.
pub proof fn law_matches_come_from_accepted_sources(
    req: EvidenceRequirementModel,
    case: Case,
    excluded: Seq<Uuid>,
    id: Uuid,
)
    requires
        requirement_assessment(req, case, excluded).matched_evidence.contains(id),
    ensures
        exists|i: int|
            #![trigger case.candidates[i]]
            0 <= i < case.candidates.len() && case.candidates[i].id == id && (
            case.candidates[i].trust_class matches Some(class)
                && req.acceptable_trust_classes.contains(class)) && sound(
                req,
                case.claimed_at,
                excluded,
                case.candidates[i],
            ),
{
    let a = requirement_assessment(req, case, excluded);
    let k = choose|k: int| 0 <= k < a.matched_evidence.len() && a.matched_evidence[k] == id;
    assert(a.state == known_tag(0));
    let at = law_satisfied_rests_on_the_first_sound_evidence(req, case, excluded);
    let i = at[k];
    assert(case.candidates[i].id == id);
    lemma_trusted(req, case.candidates[i]);
}

/// Whether some candidate of the kind asked for, not excluded and from an
/// accepted source, has times that cannot be read.
pub open spec fn some_unreadable(
    req: EvidenceRequirementModel,
    claimed_at: Seq<char>,
    excluded: Seq<Uuid>,
    candidates: Seq<CandidateModel>,
) -> bool {
    exists|i: int|
        #![trigger candidates[i]]
        0 <= i < candidates.len() && candidates[i].kind == req.evidence_kind && !excluded.contains(
            candidates[i].id,
        ) && trusted(req, candidates[i]) && unreadable(req, claimed_at, candidates[i])
}

/// Whether some candidate of the kind asked for, not excluded and from an
/// accepted source, is too old, or from after the claim, or of unknown age.
pub open spec fn some_out_of_time(
    req: EvidenceRequirementModel,
    claimed_at: Seq<char>,
    excluded: Seq<Uuid>,
    candidates: Seq<CandidateModel>,
) -> bool {
    exists|i: int|
        #![trigger candidates[i]]
        0 <= i < candidates.len() && candidates[i].kind == req.evidence_kind && !excluded.contains(
            candidates[i].id,
        ) && trusted(req, candidates[i]) && !in_time(req, claimed_at, candidates[i])
}

/// Whether some candidate is of the kind asked for.
pub open spec fn some_of_kind(
    req: EvidenceRequirementModel,
    candidates: Seq<CandidateModel>,
) -> bool {
    exists|i: int|
        #![trigger candidates[i]]
        0 <= i < candidates.len() && candidates[i].kind == req.evidence_kind
}

/// Why a candidate of the kind asked for does not count: it is excluded, else
/// its source is not accepted, else its age is unclear, else it is too old.
pub open spec fn fault(
    req: EvidenceRequirementModel,
    claimed_at: Seq<char>,
    excluded: Seq<Uuid>,
    c: CandidateModel,
) -> RejectionReason {
    if excluded.contains(c.id) {
        RejectionReason::ClaimedByIndependentRequirement
    } else if !trusted(req, c) {
        RejectionReason::WrongTrustClass
    } else if unreadable(req, claimed_at, c) || too_late(req, claimed_at, c) {
        RejectionReason::IndeterminateFreshness
    } else {
        RejectionReason::Stale
    }
}

/// Whether the candidate at `i` is of the kind asked for and does not count,
/// for the reason given.
pub open spec fn faulty_at(
    req: EvidenceRequirementModel,
    claimed_at: Seq<char>,
    excluded: Seq<Uuid>,
    candidates: Seq<CandidateModel>,
    i: int,
    r: RejectedEvidence,
) -> bool {
    &&& 0 <= i < candidates.len()
    &&& candidates[i].kind == req.evidence_kind
    &&& !sound(req, claimed_at, excluded, candidates[i])
    &&& r.evidence_id == candidates[i].id
    &&& r.reason == fault(req, claimed_at, excluded, candidates[i])
}

proof fn lemma_rejected(
    req: EvidenceRequirementModel,
    claimed_at: Seq<char>,
    excluded: Seq<Uuid>,
    candidates: Seq<CandidateModel>,
    r: RejectedEvidence,
)
    ensures
        rejected(req, claimed_at, excluded, candidates).contains(r) <==> exists|i: int| #[trigger]
            faulty_at(req, claimed_at, excluded, candidates, i, r),
    decreases candidates.len(),
{
    let rs = rejected(req, claimed_at, excluded, candidates);
    if candidates.len() > 0 {
        let front = candidates.drop_last();
        let n = candidates.len() - 1;
        let before = rejected(req, claimed_at, excluded, front);
        lemma_rejected(req, claimed_at, excluded, front, r);
        lemma_sound(req, claimed_at, excluded, candidates[n]);
        assert(candidates.last() == candidates[n]);
        assert forall|i: int| 0 <= i < n implies #[trigger] faulty_at(
            req,
            claimed_at,
            excluded,
            candidates,
            i,
            r,
        ) == faulty_at(req, claimed_at, excluded, front, i, r) by {
            assert(front[i] == candidates[i]);
        }
        if rs.contains(r) {
            let k = choose|k: int| 0 <= k < rs.len() && rs[k] == r;
            if k < before.len() {
                assert(before[k] == r);
                let i = choose|i: int| #[trigger]
                    faulty_at(req, claimed_at, excluded, front, i, r);
                assert(faulty_at(req, claimed_at, excluded, candidates, i, r));
            } else {
                assert(faulty_at(req, claimed_at, excluded, candidates, n, r));
            }
        }
        if exists|i: int| #[trigger] faulty_at(req, claimed_at, excluded, candidates, i, r) {
            let i = choose|i: int| #[trigger]
                faulty_at(req, claimed_at, excluded, candidates, i, r);
            if i < n {
                assert(faulty_at(req, claimed_at, excluded, front, i, r));
                let k = choose|k: int| 0 <= k < before.len() && before[k] == r;
                assert(rs[k] == r);
            } else {
                assert(rs[rs.len() - 1] == r);
            }
        }
    } else {
        assert(rs.len() == 0);
    }
}

/// A requirement that binds rejects exactly the candidates of the kind asked
/// for that do not count, each with its reason.
pub proof fn law_faulty_evidence_is_rejected_with_its_reason(
    req: EvidenceRequirementModel,
    case: Case,
    excluded: Seq<Uuid>,
    r: RejectedEvidence,
)
    requires
        binds(req.level, case.conditions),
    ensures
        requirement_assessment(req, case, excluded).rejected_evidence.contains(r) <==> exists|
            i: int,
        | #[trigger]
            faulty_at(req, case.claimed_at, excluded, case.candidates, i, r),
{
    lemma_rejected(req, case.claimed_at, excluded, case.candidates, r);
}

/// What a requirement with too little evidence comes to. Unreadable times make
/// it unknown; else evidence out of time makes it stale; else evidence of the
/// kind that falls short makes it unsatisfied; without any it is unavailable.
pub proof fn law_shortfalls_are_told_apart(
    req: EvidenceRequirementModel,
    case: Case,
    excluded: Seq<Uuid>,
)
    requires
        binds(req.level, case.conditions),
        requirement_assessment(req, case, excluded).state != known_tag(0),
    ensures
        ({
            let state = requirement_assessment(req, case, excluded).state;
            let dark = some_unreadable(req, case.claimed_at, excluded, case.candidates);
            let late = some_out_of_time(req, case.claimed_at, excluded, case.candidates);
            let any = some_of_kind(req, case.candidates);
            &&& dark ==> state == known_tag(6)
            &&& !dark && late ==> state == known_tag(3)
            &&& !dark && !late && any ==> state == known_tag(1)
            &&& !any ==> state == known_tag(2)
            &&& requirement_assessment(req, case, excluded).matched_evidence.len() == 0
        }),
{
    let cs = case.candidates;
    let at = case.claimed_at;
    let rs = rejected(req, at, excluded, cs);
    let all = lemma_all_sound(req, at, excluded, cs);
    assert forall|i: int| 0 <= i < cs.len() implies {
        &&& super::undated(req, at, excluded, #[trigger] cs[i]) <==> cs[i].kind == req.evidence_kind
            && !excluded.contains(cs[i].id) && trusted(req, cs[i]) && unreadable(req, at, cs[i])
    } by {
        lemma_sound(req, at, excluded, cs[i]);
    }
    assert(super::any_undated(req, at, excluded, cs) == some_unreadable(req, at, excluded, cs)) by {
        if super::any_undated(req, at, excluded, cs) {
            let i = choose|i: int|
                0 <= i < cs.len() && super::undated(req, at, excluded, #[trigger] cs[i]);
            assert(unreadable(req, at, cs[i]));
        }
        if some_unreadable(req, at, excluded, cs) {
            let i = choose|i: int|
                #![trigger cs[i]]
                0 <= i < cs.len() && cs[i].kind == req.evidence_kind && !excluded.contains(cs[i].id)
                    && trusted(req, cs[i]) && unreadable(req, at, cs[i]);
            assert(super::undated(req, at, excluded, cs[i]));
        }
    }
    if super::any_stale(rs) {
        let k = choose|k: int|
            0 <= k < rs.len() && ((#[trigger] rs[k]).reason == RejectionReason::Stale || rs[k].reason
                == RejectionReason::IndeterminateFreshness);
        assert(rs.contains(rs[k]));
        lemma_rejected(req, at, excluded, cs, rs[k]);
        let i = choose|i: int| #[trigger] faulty_at(req, at, excluded, cs, i, rs[k]);
        lemma_sound(req, at, excluded, cs[i]);
        assert(some_out_of_time(req, at, excluded, cs));
    }
    if some_out_of_time(req, at, excluded, cs) {
        let i = choose|i: int|
            #![trigger cs[i]]
            0 <= i < cs.len() && cs[i].kind == req.evidence_kind && !excluded.contains(cs[i].id)
                && trusted(req, cs[i]) && !in_time(req, at, cs[i]);
        let r = RejectedEvidence {
            evidence_id: cs[i].id,
            reason: fault(req, at, excluded, cs[i]),
        };
        assert(faulty_at(req, at, excluded, cs, i, r));
        lemma_rejected(req, at, excluded, cs, r);
        let k = choose|k: int| 0 <= k < rs.len() && rs[k] == r;
        assert(rs[k].reason == RejectionReason::Stale || rs[k].reason
            == RejectionReason::IndeterminateFreshness);
        assert(super::any_stale(rs));
    }
    if rs.len() > 0 {
        assert(rs.contains(rs[0]));
        lemma_rejected(req, at, excluded, cs, rs[0]);
        let i = choose|i: int| #[trigger] faulty_at(req, at, excluded, cs, i, rs[0]);
        assert(cs[i].kind == req.evidence_kind);
    }
    if all.len() > 0 {
        assert(cs[all[0]].kind == req.evidence_kind);
    }
    if some_of_kind(req, cs) {
        let i = choose|i: int|
            #![trigger cs[i]]
            0 <= i < cs.len() && cs[i].kind == req.evidence_kind;
        if sound(req, at, excluded, cs[i]) {
            assert(all.contains(i));
            assert(all.len() > 0);
        } else {
            let r = RejectedEvidence {
                evidence_id: cs[i].id,
                reason: fault(req, at, excluded, cs[i]),
            };
            assert(faulty_at(req, at, excluded, cs, i, r));
            lemma_rejected(req, at, excluded, cs, r);
            assert(rs.len() > 0);
        }
    }
}

/// A requirement whose condition does not hold is not applicable, and judges
/// nothing. Each report carries the requirement's name and level.
pub proof fn law_conditions_switch_requirements(
    req: EvidenceRequirementModel,
    case: Case,
    excluded: Seq<Uuid>,
)
    ensures
        ({
            let a = requirement_assessment(req, case, excluded);
            &&& a.requirement_id == req.id
            &&& a.level == req.level
            &&& a.state == known_tag(5) <==> !binds(req.level, case.conditions)
            &&& !binds(req.level, case.conditions) ==> a.matched_evidence.len() == 0
                && a.rejected_evidence.len() == 0
        }),
{
}

/// Whether a reported requirement stands in a claim's way.
pub open spec fn stands_in_the_way(a: RequirementAssessmentModel) -> bool {
    !(a.level is Recommended) && a.state != known_tag(0) && a.state != known_tag(5)
}

/// Whether some reported requirement stands in a claim's way with a state.
pub open spec fn stopped_by(reports: Seq<RequirementAssessmentModel>, state: int) -> bool {
    exists|i: int|
        0 <= i < reports.len() && stands_in_the_way(#[trigger] reports[i]) && reports[i].state
            == known_tag(state)
}

proof fn lemma_sharpest_state(reports: Seq<RequirementAssessmentModel>, state: int)
    requires
        1 <= state <= 4 || state == 6,
        forall|i: int|
            0 <= i < reports.len() ==> exists|s: int|
                0 <= s < 7 && (#[trigger] reports[i]).state == #[trigger] known_tag(s),
    ensures
        sharpest(reports) == Some(known_tag(state)) <==> stopped_by(reports, state) && forall|
            s: int,
        |
            above(s, state) ==> !#[trigger] stopped_by(reports, s),
        sharpest(reports) is None <==> forall|i: int|
            0 <= i < reports.len() ==> !stands_in_the_way(#[trigger] reports[i]),
    decreases reports.len(),
{
    lemma_sharpest(reports);
    if sharpest(reports) is Some {
        let top = sharpest(reports).unwrap();
        let k = choose|i: int|
            0 <= i < reports.len() && blocks(#[trigger] reports[i]) && reports[i].state == top;
        let s = choose|s: int| 0 <= s < 7 && reports[k].state == #[trigger] known_tag(s);
        assert(stopped_by(reports, s));
        assert forall|u: int| above(u, s) implies !#[trigger] stopped_by(reports, u) by {
            if stopped_by(reports, u) {
                let i = choose|i: int|
                    0 <= i < reports.len() && stands_in_the_way(#[trigger] reports[i])
                        && reports[i].state == known_tag(u);
                assert(blocks(reports[i]));
            }
        }
        if s != state && stopped_by(reports, state) {
            let i = choose|i: int|
                0 <= i < reports.len() && stands_in_the_way(#[trigger] reports[i])
                    && reports[i].state == known_tag(state);
            assert(blocks(reports[i]));
            assert(above(s, state));
        }
    } else {
        if stopped_by(reports, state) {
            let i = choose|i: int|
                0 <= i < reports.len() && stands_in_the_way(#[trigger] reports[i])
                    && reports[i].state == known_tag(state);
            assert(blocks(reports[i]));
        }
    }
    assert forall|i: int| 0 <= i < reports.len() implies blocks(#[trigger] reports[i])
        == stands_in_the_way(reports[i]) by {}
}

/// Whether a state goes before another one in a claim's overall state:
/// contradicted before stale, before unsatisfied, before unavailable, before
/// unknown.
pub open spec fn above(a: int, b: int) -> bool {
    ||| a == 4 && b != 4
    ||| a == 3 && (b == 1 || b == 2 || b == 6)
    ||| a == 1 && (b == 2 || b == 6)
    ||| a == 2 && b == 6
}

proof fn lemma_reported(
    requirements: Seq<EvidenceRequirementModel>,
    case: Case,
    k: int,
)
    requires
        0 <= k < requirements.len(),
    ensures
        requirement_assessments(requirements, case).len() == requirements.len(),
        requirement_assessments(requirements, case)[k].requirement_id == requirements[k].id,
        requirement_assessments(requirements, case)[k].level == requirements[k].level,
        exists|s: int|
            0 <= s < 7 && requirement_assessments(requirements, case)[k].state == #[trigger] known_tag(
                s,
            ),
{
    lemma_first_assessments(requirements, case, requirements.len() as int, k);
    let a = requirement_assessments(requirements, case)[k];
    assert(a.state == known_tag(0) || a.state == known_tag(1) || a.state == known_tag(2) || a.state
        == known_tag(3) || a.state == known_tag(5) || a.state == known_tag(6));
}

/// A registered claim is reported requirement by requirement. It is satisfied
/// exactly if none stands in its way: no required one, and no conditional one
/// whose condition holds, is anything but satisfied. Else it has the state of
/// the worst of those: stale, then unsatisfied, then unavailable, then unknown.
pub proof fn law_claims_go_by_the_worst_that_stands_in_the_way(
    registry: Map<ClaimClassIdModel, EpistemicContractModel>,
    claim_class: ClaimClassIdModel,
    case: Case,
    state: int,
)
    requires
        registry.dom().contains(claim_class),
        effective(registry, claim_class) is Ok,
        1 <= state <= 4 || state == 6,
    ensures
        assessment(registry, claim_class, case) matches Ok(a) && {
            let reqs = in_key_order(effective(registry, claim_class)->Ok_0);
            &&& a.claim_class == claim_class
            &&& a.per_requirement.len() == reqs.len()
            &&& forall|k: int|
                0 <= k < reqs.len() ==> (#[trigger] a.per_requirement[k]).requirement_id
                    == reqs[k].id && a.per_requirement[k].level == reqs[k].level
            &&& a.overall == known_tag(0) <==> forall|i: int|
                0 <= i < a.per_requirement.len() ==> !stands_in_the_way(
                    #[trigger] a.per_requirement[i],
                )
            &&& a.overall == known_tag(state) <==> stopped_by(a.per_requirement, state) && forall|
                s: int,
            |
                above(s, state) ==> !#[trigger] stopped_by(a.per_requirement, s)
        },
{
    let reqs = in_key_order(effective(registry, claim_class)->Ok_0);
    let reports = requirement_assessments(reqs, case);
    assert(reports.len() == reqs.len()) by {
        if reqs.len() > 0 {
            lemma_reported(reqs, case, 0);
        }
    }
    assert forall|k: int| 0 <= k < reqs.len() implies (#[trigger] reports[k]).requirement_id
        == reqs[k].id && reports[k].level == reqs[k].level by {
        lemma_reported(reqs, case, k);
    }
    assert forall|i: int| 0 <= i < reports.len() implies exists|s: int|
        0 <= s < 7 && (#[trigger] reports[i]).state == #[trigger] known_tag(s) by {
        lemma_reported(reqs, case, i);
    }
    lemma_sharpest_state(reports, state);
    lemma_sharpest(reports);
}

/// Whether two requirements may share evidence: neither must be independent of
/// the other.
pub open spec fn may_share(a: EvidenceRequirementModel, b: EvidenceRequirementModel) -> bool {
    &&& a.independence matches IndependenceRuleModel::MustBeIndependentOf(ids) ==> !ids.contains(
        b.id,
    )
    &&& b.independence matches IndependenceRuleModel::MustBeIndependentOf(ids) ==> !ids.contains(
        a.id,
    )
}

proof fn lemma_nothing_taken(
    requirements: Seq<EvidenceRequirementModel>,
    assessed: Seq<RequirementAssessmentModel>,
    req: EvidenceRequirementModel,
)
    requires
        assessed.len() <= requirements.len(),
        forall|j: int| 0 <= j < assessed.len() ==> may_share(req, #[trigger] requirements[j]),
    ensures
        taken(requirements, assessed, req).len() == 0,
    decreases assessed.len(),
{
    if assessed.len() > 0 {
        lemma_nothing_taken(requirements, assessed.drop_last(), req);
        assert(may_share(req, requirements[assessed.len() - 1]));
    }
}

/// A requirement that need not be independent of any other, and of which no
/// other must be, is judged on all the evidence, as if it stood alone.
pub proof fn law_unconstrained_requirements_are_judged_alone(
    requirements: Seq<EvidenceRequirementModel>,
    case: Case,
    k: int,
)
    requires
        0 <= k < requirements.len(),
        requirements[k].independence is Unconstrained,
        forall|j: int|
            0 <= j < requirements.len() && j != k ==> may_share(
                requirements[k],
                #[trigger] requirements[j],
            ),
    ensures
        requirement_assessments(requirements, case)[k] == requirement_assessment(
            requirements[k],
            case,
            Seq::empty(),
        ),
{
    let n = requirements.len() as int;
    lemma_first_assessments(requirements, case, n, k);
    let before = first_assessments(requirements, case, k);
    lemma_nothing_taken(requirements, before, requirements[k]);
}

/// Whether a requirement is weaker than the one it replaces: it is no longer
/// required, needs fewer items, or no longer accepts a source.
pub open spec fn weaker(req: EvidenceRequirementModel, parent: EvidenceRequirementModel) -> bool {
    ||| parent.level is Required && !(req.level is Required)
    ||| req.min_coverage.min_items < parent.min_coverage.min_items
    ||| exists|class: Tag| #[trigger]
        parent.acceptable_trust_classes.contains(class) && !req.acceptable_trust_classes.contains(
            class,
        )
}

proof fn lemma_weaker(
    claim_class: ClaimClassIdModel,
    req: EvidenceRequirementModel,
    parent: EvidenceRequirementModel,
)
    ensures
        weakening(claim_class, parent, req) is Some <==> weaker(req, parent),
        weakening(claim_class, parent, req) matches Some(e) ==> (e
            matches ContractErrorModel::WeakenedRequirement {
            claim_class: c,
            requirement_id,
            ..
        } && c == claim_class && requirement_id == req.id),
{
    let p = parent.acceptable_trust_classes;
    let q = req.acceptable_trust_classes;
    if keeps_trust_classes(q, p) {
        assert forall|class: Tag| #[trigger] p.contains(class) implies q.contains(class) by {
            let i = choose|i: int| 0 <= i < p.len() && p[i] == class;
            assert(q.contains(p[i]));
        }
    } else {
        let i = choose|i: int| 0 <= i < p.len() && !q.contains(#[trigger] p[i]);
        assert(p.contains(p[i]));
    }
}

/// Whether the requirement at `i` weakens an inherited one.
pub open spec fn weakens_at(
    parents: Map<Seq<char>, EvidenceRequirementModel>,
    own: Seq<EvidenceRequirementModel>,
    i: int,
) -> bool {
    0 <= i < own.len() && parents.dom().contains(own[i].id) && weaker(own[i], parents[own[i].id])
}

proof fn lemma_composed_from(
    claim_class: ClaimClassIdModel,
    parents: Map<Seq<char>, EvidenceRequirementModel>,
    own: Seq<EvidenceRequirementModel>,
    n: int,
    merged: Map<Seq<char>, EvidenceRequirementModel>,
    id: Seq<char>,
)
    requires
        0 <= n <= own.len(),
    ensures
        match composed_from(claim_class, parents, own, n, merged) {
            Ok(m) => {
                &&& forall|i: int| n <= i ==> !#[trigger] weakens_at(parents, own, i)
                &&& m.dom().contains(id) <==> merged.dom().contains(id) || exists|i: int|
                    n <= i < own.len() && (#[trigger] own[i]).id == id
                &&& (forall|i: int| n <= i < own.len() ==> (#[trigger] own[i]).id != id) ==> m[id]
                    == merged[id]
                &&& forall|i: int|
                    n <= i < own.len() && (#[trigger] own[i]).id == id && (forall|j: int|
                        i < j < own.len() ==> (#[trigger] own[j]).id != id) ==> m[id] == own[i]
            },
            Err(e) => exists|i: int|
                n <= i && #[trigger] weakens_at(parents, own, i) && (forall|j: int|
                    n <= j < i ==> !#[trigger] weakens_at(parents, own, j)) && weakening(
                    claim_class,
                    parents[own[i].id],
                    own[i],
                ) == Some(e),
        },
    decreases own.len() - n,
{
    if n < own.len() {
        let req = own[n];
        if parents.dom().contains(req.id) {
            lemma_weaker(claim_class, req, parents[req.id]);
        }
        if weakens_at(parents, own, n) {
        } else {
            let next = merged.insert(req.id, req);
            lemma_composed_from(claim_class, parents, own, n + 1, next, id);
            match composed_from(claim_class, parents, own, n + 1, next) {
                Ok(m) => {
                    assert forall|i: int| n <= i implies !#[trigger] weakens_at(parents, own, i) by {
                    }
                    if exists|i: int| n <= i < own.len() && (#[trigger] own[i]).id == id {
                        let i = choose|i: int| n <= i < own.len() && (#[trigger] own[i]).id == id;
                        if i == n {
                            assert(next.dom().contains(id));
                        }
                    }
                    if own[n].id == id {
                        assert(own[n].id == id);
                    }
                },
                Err(e) => {
                    let i = choose|i: int|
                        n + 1 <= i && #[trigger] weakens_at(parents, own, i) && (forall|j: int|
                            n + 1 <= j < i ==> !#[trigger] weakens_at(parents, own, j))
                            && weakening(claim_class, parents[own[i].id], own[i]) == Some(e);
                    assert forall|j: int| n <= j < i implies !#[trigger] weakens_at(
                        parents,
                        own,
                        j,
                    ) by {}
                },
            }
        }
    }
}

/// A contract's requirements go together with the inherited ones exactly if
/// none weakens an inherited one of the same name. Each name then has its last
/// own requirement, or else the inherited one; where one weakens, the first
/// that does is named.
pub proof fn law_composition_replaces_but_never_weakens(
    claim_class: ClaimClassIdModel,
    parents: Map<Seq<char>, EvidenceRequirementModel>,
    own: Seq<EvidenceRequirementModel>,
    id: Seq<char>,
)
    ensures
        match composed(claim_class, parents, own) {
            Ok(m) => {
                &&& forall|i: int| !#[trigger] weakens_at(parents, own, i)
                &&& m.dom().contains(id) <==> parents.dom().contains(id) || exists|i: int|
                    0 <= i < own.len() && (#[trigger] own[i]).id == id
                &&& (forall|i: int| 0 <= i < own.len() ==> (#[trigger] own[i]).id != id) ==> m[id]
                    == parents[id]
                &&& forall|i: int|
                    0 <= i < own.len() && (#[trigger] own[i]).id == id && (forall|j: int|
                        i < j < own.len() ==> (#[trigger] own[j]).id != id) ==> m[id] == own[i]
            },
            Err(e) => exists|i: int| #[trigger]
                weakens_at(parents, own, i) && (forall|j: int|
                    j < i ==> !#[trigger] weakens_at(parents, own, j)) && (e
                    matches ContractErrorModel::WeakenedRequirement {
                    claim_class: c,
                    requirement_id,
                    ..
                } && c == claim_class && requirement_id == own[i].id),
        },
{
    lemma_composed_from(claim_class, parents, own, 0, parents, id);
    match composed(claim_class, parents, own) {
        Ok(_) => {
            assert forall|i: int| !#[trigger] weakens_at(parents, own, i) by {}
        },
        Err(e) => {
            let i = choose|i: int|
                0 <= i && #[trigger] weakens_at(parents, own, i) && (forall|j: int|
                    0 <= j < i ==> !#[trigger] weakens_at(parents, own, j)) && weakening(
                    claim_class,
                    parents[own[i].id],
                    own[i],
                ) == Some(e);
            lemma_weaker(claim_class, own[i], parents[own[i].id]);
            assert forall|j: int| j < i implies !#[trigger] weakens_at(parents, own, j) by {}
        },
    }
}

/// Whether a requirement can never be met, or is met by nothing.
pub open spec fn hopeless(req: EvidenceRequirementModel) -> bool {
    (req.level is Required && req.acceptable_trust_classes.len() == 0)
        || req.min_coverage.min_items == 0
}

proof fn lemma_contract_problem(contract: EpistemicContractModel, n: int)
    requires
        0 <= n <= contract.requirements.len(),
    ensures
        match contract_problem_from(contract, n) {
            None => forall|i: int|
                n <= i < contract.requirements.len() ==> !hopeless(
                    #[trigger] contract.requirements[i],
                ),
            Some(e) => exists|i: int|
                n <= i < contract.requirements.len() && hopeless(
                    #[trigger] contract.requirements[i],
                ) && (forall|j: int|
                    n <= j < i ==> !hopeless(#[trigger] contract.requirements[j])) && (e
                    matches ContractErrorModel::UnsatisfiableRequirement {
                    claim_class,
                    requirement_id,
                    ..
                } && claim_class == contract.claim_class && requirement_id
                    == contract.requirements[i].id),
        },
    decreases contract.requirements.len() - n,
{
    if n < contract.requirements.len() {
        lemma_contract_problem(contract, n + 1);
        let req = contract.requirements[n];
        if !hopeless(req) && contract_problem_from(contract, n + 1) is Some {
            let e = contract_problem_from(contract, n + 1).unwrap();
            let i = choose|i: int|
                n + 1 <= i < contract.requirements.len() && hopeless(
                    #[trigger] contract.requirements[i],
                ) && (forall|j: int|
                    n + 1 <= j < i ==> !hopeless(#[trigger] contract.requirements[j])) && (e
                    matches ContractErrorModel::UnsatisfiableRequirement {
                    claim_class,
                    requirement_id,
                    ..
                } && claim_class == contract.claim_class && requirement_id
                    == contract.requirements[i].id);
            assert forall|j: int| n <= j < i implies !hopeless(
                #[trigger] contract.requirements[j],
            ) by {}
        }
    }
}

/// A contract is valid exactly if each of its requirements asks for at least
/// one item, and each required one accepts some source. Else the first that
/// does not is named.
pub proof fn law_hopeless_requirements_are_refused(contract: EpistemicContractModel)
    ensures
        match contract_problem(contract) {
            None => forall|i: int|
                0 <= i < contract.requirements.len() ==> !hopeless(
                    #[trigger] contract.requirements[i],
                ),
            Some(e) => exists|i: int|
                0 <= i < contract.requirements.len() && hopeless(
                    #[trigger] contract.requirements[i],
                ) && (forall|j: int|
                    0 <= j < i ==> !hopeless(#[trigger] contract.requirements[j])) && (e
                    matches ContractErrorModel::UnsatisfiableRequirement {
                    claim_class,
                    requirement_id,
                    ..
                } && claim_class == contract.claim_class && requirement_id
                    == contract.requirements[i].id),
        },
{
    lemma_contract_problem(contract, 0);
}

/// Whether `at` lists the first candidates that count for a requirement on all
/// the evidence, no more than it needs, and the one at `k` has an identifier.
pub open spec fn claims_with(
    req: EvidenceRequirementModel,
    case: Case,
    id: Uuid,
    at: Seq<int>,
    k: int,
) -> bool {
    &&& sound_at(req, case.claimed_at, Seq::empty(), case.candidates, at)
    &&& at.len() <= req.min_coverage.min_items
    &&& forall|i: int, m: int|
        #![trigger case.candidates[i], at[m]]
        0 <= m < at.len() && 0 <= i <= at[m] && sound(
            req,
            case.claimed_at,
            Seq::empty(),
            case.candidates[i],
        ) ==> at.contains(i)
    &&& 0 <= k < at.len()
    &&& case.candidates[at[k]].id == id
}

/// Whether a requirement would take an item of evidence if it stood alone.
pub open spec fn claims_alone(req: EvidenceRequirementModel, case: Case, id: Uuid) -> bool {
    exists|at: Seq<int>, k: int| #[trigger] claims_with(req, case, id, at, k)
}

proof fn lemma_same_positions(
    req: EvidenceRequirementModel,
    case: Case,
    id: Uuid,
    at: Seq<int>,
    k: int,
    all: Seq<int>,
    m: int,
)
    requires
        claims_with(req, case, id, at, k),
        all_sound_at(req, case.claimed_at, Seq::empty(), case.candidates, all),
        0 <= m < at.len(),
    ensures
        m < all.len(),
        forall|p: int| 0 <= p <= m ==> #[trigger] at[p] == all[p],
    decreases m,
{
    if m > 0 {
        lemma_same_positions(req, case, id, at, k, all, m - 1);
    }
    assert(sound(req, case.claimed_at, Seq::empty(), case.candidates[at[m]]));
    assert(all.contains(at[m]));
    let j = choose|j: int| 0 <= j < all.len() && all[j] == at[m];
    if j < m {
        assert(at[j] == all[j]);
        assert(at[j] < at[m]);
    }
    if j > m {
        assert(all[m] < all[j]);
        assert(sound(req, case.claimed_at, Seq::empty(), case.candidates[all[m]]));
        assert(at.contains(all[m]));
        let p = choose|p: int| 0 <= p < at.len() && at[p] == all[m];
        if p >= m {
            if p > m {
                assert(at[m] < at[p]);
            }
        } else {
            assert(at[p] == all[p]);
            assert(all[p] < all[m]);
        }
    }
    assert(at[m] == all[m]);
}

proof fn lemma_claims_alone(req: EvidenceRequirementModel, case: Case, id: Uuid)
    ensures
        claimed(req, case.claimed_at, Seq::empty(), case.candidates).contains(id) <==> claims_alone(
            req,
            case,
            id,
        ),
{
    let c = claimed(req, case.claimed_at, Seq::empty(), case.candidates);
    let all = lemma_all_sound(req, case.claimed_at, Seq::empty(), case.candidates);
    if claims_alone(req, case, id) {
        let (at, k) = choose|at: Seq<int>, k: int| #[trigger] claims_with(req, case, id, at, k);
        lemma_same_positions(req, case, id, at, k, all, k);
        assert(at[k] == all[k]);
        assert(c[k] == id);
    }
    if c.contains(id) {
        let k = choose|k: int| 0 <= k < c.len() && c[k] == id;
        let at = all.take(c.len() as int);
        assert forall|i: int, m: int|
            #![trigger case.candidates[i], at[m]]
            0 <= m < at.len() && 0 <= i <= at[m] && sound(
                req,
                case.claimed_at,
                Seq::empty(),
                case.candidates[i],
            ) implies at.contains(i) by {
            let j = choose|j: int| 0 <= j < all.len() && all[j] == i;
            assert(at[m] == all[m]);
            if j > m {
                assert(all[m] < all[j]);
            }
            assert(at[j] == i);
        }
        assert(at[k] == all[k]);
        assert(claims_with(req, case, id, at, k));
    }
}

/// Whether the requirement at `j` is one of those named, binds, and would take
/// an item of evidence if it stood alone.
pub open spec fn named_claim(
    requirements: Seq<EvidenceRequirementModel>,
    case: Case,
    ids: Seq<Seq<char>>,
    j: int,
    id: Uuid,
) -> bool {
    &&& 0 <= j < requirements.len()
    &&& ids.contains(requirements[j].id)
    &&& binds(requirements[j].level, case.conditions)
    &&& claims_alone(requirements[j], case, id)
}

proof fn lemma_lone_claims(requirements: Seq<EvidenceRequirementModel>, case: Case)
    requires
        ids_differ(requirements),
    ensures
        forall|j: int|
            0 <= j < requirements.len() ==> (lone_claims(requirements, case).dom().contains(
                (#[trigger] requirements[j]).id,
            ) <==> binds(requirements[j].level, case.conditions)) && (binds(
                requirements[j].level,
                case.conditions,
            ) ==> lone_claims(requirements, case)[requirements[j].id] == claimed(
                requirements[j],
                case.claimed_at,
                Seq::empty(),
                case.candidates,
            )),
        forall|name: Seq<char>| #[trigger]
            lone_claims(requirements, case).dom().contains(name) ==> exists|j: int|
                0 <= j < requirements.len() && (#[trigger] requirements[j]).id == name,
    decreases requirements.len(),
{
    let claims = lone_claims(requirements, case);
    if requirements.len() > 0 {
        let front = requirements.drop_last();
        let n = requirements.len() - 1;
        let before = lone_claims(front, case);
        assert forall|i: int, j: int|
            #![trigger front[i], front[j]]
            0 <= i < j < front.len() implies front[i].id != front[j].id by {
            assert(requirements[i].id != requirements[j].id);
        }
        lemma_lone_claims(front, case);
        assert(requirements.last() == requirements[n]);
        assert(!before.dom().contains(requirements[n].id)) by {
            if before.dom().contains(requirements[n].id) {
                let j = choose|j: int|
                    0 <= j < front.len() && (#[trigger] front[j]).id == requirements[n].id;
                assert(requirements[j].id != requirements[n].id);
            }
        }
        assert forall|j: int| 0 <= j < requirements.len() implies (claims.dom().contains(
            (#[trigger] requirements[j]).id,
        ) <==> binds(requirements[j].level, case.conditions)) && (binds(
            requirements[j].level,
            case.conditions,
        ) ==> claims[requirements[j].id] == claimed(
            requirements[j],
            case.claimed_at,
            Seq::empty(),
            case.candidates,
        )) by {
            if j < n {
                assert(front[j] == requirements[j]);
                assert(requirements[j].id != requirements[n].id);
            }
        }
        assert forall|name: Seq<char>| #[trigger] claims.dom().contains(name) implies exists|j: int|
            0 <= j < requirements.len() && (#[trigger] requirements[j]).id == name by {
            if before.dom().contains(name) {
                let j = choose|j: int| 0 <= j < front.len() && (#[trigger] front[j]).id == name;
                assert(requirements[j].id == name);
            } else {
                assert(requirements[n].id == name);
            }
        }
    }
}

/// Whether `name` is listed and has claimed an item of evidence.
spec fn listed_claim(
    ids: Seq<Seq<char>>,
    claims: Map<Seq<char>, Seq<Uuid>>,
    name: Seq<char>,
    id: Uuid,
) -> bool {
    ids.contains(name) && claims.dom().contains(name) && claims[name].contains(id)
}

proof fn lemma_claims_of(ids: Seq<Seq<char>>, claims: Map<Seq<char>, Seq<Uuid>>, id: Uuid)
    ensures
        claims_of(ids, claims).contains(id) <==> exists|name: Seq<char>| #[trigger]
            listed_claim(ids, claims, name, id),
    decreases ids.len(),
{
    let all = claims_of(ids, claims);
    if ids.len() > 0 {
        let front = ids.drop_last();
        let last = ids.last();
        let head = claims_of(front, claims);
        let tail = if claims.dom().contains(last) {
            claims[last]
        } else {
            Seq::empty()
        };
        lemma_claims_of(front, claims, id);
        assert(ids[ids.len() - 1] == last);
        if all.contains(id) {
            let i = choose|i: int| 0 <= i < all.len() && all[i] == id;
            if i < head.len() {
                assert(head[i] == id);
                let name = choose|name: Seq<char>| #[trigger] listed_claim(front, claims, name, id);
                let k = choose|k: int| 0 <= k < front.len() && front[k] == name;
                assert(ids[k] == name);
                assert(listed_claim(ids, claims, name, id));
            } else {
                assert(tail[i - head.len()] == id);
                assert(listed_claim(ids, claims, last, id));
            }
        }
        if exists|name: Seq<char>| #[trigger] listed_claim(ids, claims, name, id) {
            let name = choose|name: Seq<char>| #[trigger] listed_claim(ids, claims, name, id);
            if name == last {
                let i = choose|i: int| 0 <= i < tail.len() && tail[i] == id;
                assert(all[head.len() + i] == id);
            } else {
                let k = choose|k: int| 0 <= k < ids.len() && ids[k] == name;
                assert(front[k] == name);
                assert(listed_claim(front, claims, name, id));
                let i = choose|i: int| 0 <= i < head.len() && head[i] == id;
                assert(all[i] == id);
            }
        }
    } else {
        assert(all.len() == 0);
    }
}

proof fn lemma_taken_from(
    requirements: Seq<EvidenceRequirementModel>,
    assessed: Seq<RequirementAssessmentModel>,
    req: EvidenceRequirementModel,
    id: Uuid,
)
    requires
        assessed.len() <= requirements.len(),
        taken(requirements, assessed, req).contains(id),
    ensures
        exists|j: int|
            0 <= j < assessed.len() && kept_apart(req, requirements[j]) && (
            #[trigger] assessed[j]).matched_evidence.contains(id),
    decreases assessed.len(),
{
    let all = taken(requirements, assessed, req);
    let i = choose|i: int| 0 <= i < all.len() && all[i] == id;
    let front = assessed.drop_last();
    let head = taken(requirements, front, req);
    let n = assessed.len() - 1;
    if i < head.len() {
        assert(head[i] == id);
        lemma_taken_from(requirements, front, req, id);
        let j = choose|j: int|
            0 <= j < front.len() && kept_apart(req, requirements[j]) && (
            #[trigger] front[j]).matched_evidence.contains(id);
        assert(assessed[j] == front[j]);
    } else {
        assert(assessed.last().matched_evidence[i - head.len()] == id);
        assert(assessed[n] == assessed.last());
    }
}

/// A requirement that must be independent of others is judged without the
/// evidence that those would take if each stood alone, and on all the rest.
/// The others are taken to be free of such conditions themselves.
pub proof fn law_independent_requirements_leave_out_what_others_claim(
    requirements: Seq<EvidenceRequirementModel>,
    case: Case,
    k: int,
) -> (excluded: Seq<Uuid>)
    requires
        0 <= k < requirements.len(),
        ids_differ(requirements),
        requirements[k].independence is MustBeIndependentOf,
        forall|j: int|
            0 <= j < requirements.len() && j != k ==> (
            #[trigger] requirements[j]).independence is Unconstrained,
    ensures
        requirement_assessments(requirements, case)[k] == requirement_assessment(
            requirements[k],
            case,
            excluded,
        ),
        forall|id: Uuid| #[trigger]
            excluded.contains(id) <==> exists|j: int| #[trigger]
                named_claim(
                    requirements,
                    case,
                    requirements[k].independence->MustBeIndependentOf_0,
                    j,
                    id,
                ),
{
    let n = requirements.len() as int;
    let req = requirements[k];
    let ids = req.independence->MustBeIndependentOf_0;
    let claims = lone_claims(requirements, case);
    let excluded = claims_of(ids, claims);
    let first = requirement_assessment(req, case, excluded);
    lemma_lone_claims(requirements, case);
    assert forall|id: Uuid| #[trigger] excluded.contains(id) <==> exists|j: int| #[trigger]
        named_claim(requirements, case, ids, j, id) by {
        lemma_claims_of(ids, claims, id);
        if excluded.contains(id) {
            let name = choose|name: Seq<char>| #[trigger] listed_claim(ids, claims, name, id);
            let j = choose|j: int|
                0 <= j < requirements.len() && (#[trigger] requirements[j]).id == name;
            lemma_claims_alone(requirements[j], case, id);
            assert(named_claim(requirements, case, ids, j, id));
        }
        if exists|j: int| #[trigger] named_claim(requirements, case, ids, j, id) {
            let j = choose|j: int| #[trigger] named_claim(requirements, case, ids, j, id);
            lemma_claims_alone(requirements[j], case, id);
            assert(listed_claim(ids, claims, requirements[j].id, id));
        }
    }
    lemma_first_assessments(requirements, case, n, k);
    let before = first_assessments(requirements, case, k);
    let avoided = taken(requirements, before, req);
    assert(!super::share_evidence(first.matched_evidence, avoided)) by {
        if super::share_evidence(first.matched_evidence, avoided) {
            let i = choose|i: int|
                0 <= i < first.matched_evidence.len() && avoided.contains(
                    #[trigger] first.matched_evidence[i],
                );
            let id = first.matched_evidence[i];
            lemma_taken_from(requirements, before, req, id);
            let j = choose|j: int|
                0 <= j < before.len() && kept_apart(req, requirements[j]) && (
                #[trigger] before[j]).matched_evidence.contains(id);
            lemma_first_assessments(requirements, case, k, j);
            let earlier = first_assessments(requirements, case, j);
            lemma_first_assessments(requirements, case, k, j);
            assert forall|m: int| 0 <= m < earlier.len() implies may_share(
                requirements[j],
                #[trigger] requirements[m],
            ) by {
                assert(requirements[m].independence is Unconstrained);
            }
            lemma_nothing_taken(requirements, earlier, requirements[j]);
            assert(requirements[j].independence is Unconstrained);
            assert(before[j] == requirement_assessment(requirements[j], case, Seq::empty()));
            assert(claimed(
                requirements[j],
                case.claimed_at,
                Seq::empty(),
                case.candidates,
            ).contains(id));
            lemma_claims_alone(requirements[j], case, id);
            assert(named_claim(requirements, case, ids, j, id));
            assert(first.matched_evidence.contains(id));
            law_matches_come_from_accepted_sources(req, case, excluded, id);
            assert(excluded.contains(id));
        }
    }
    excluded
}

/// Whether `name` is listed, is not the name of one of the first `n`
/// requirements, and has claimed an item of evidence.
spec fn pending_claim(
    ids: Seq<Seq<char>>,
    claims: Map<Seq<char>, Seq<Uuid>>,
    requirements: Seq<EvidenceRequirementModel>,
    n: int,
    name: Seq<char>,
    id: Uuid,
) -> bool {
    listed_claim(ids, claims, name, id) && !super::named_before(requirements, n, name)
}

proof fn lemma_pending_claims(
    ids: Seq<Seq<char>>,
    claims: Map<Seq<char>, Seq<Uuid>>,
    requirements: Seq<EvidenceRequirementModel>,
    n: int,
    id: Uuid,
)
    ensures
        super::pending_claims(ids, claims, requirements, n).contains(id) <==> exists|
            name: Seq<char>,
        | #[trigger]
            pending_claim(ids, claims, requirements, n, name, id),
    decreases ids.len(),
{
    let all = super::pending_claims(ids, claims, requirements, n);
    if ids.len() > 0 {
        let front = ids.drop_last();
        let last = ids.last();
        let head = super::pending_claims(front, claims, requirements, n);
        let tail = if claims.dom().contains(last) && !super::named_before(requirements, n, last) {
            claims[last]
        } else {
            Seq::empty()
        };
        lemma_pending_claims(front, claims, requirements, n, id);
        assert(ids[ids.len() - 1] == last);
        if all.contains(id) {
            let i = choose|i: int| 0 <= i < all.len() && all[i] == id;
            if i < head.len() {
                assert(head[i] == id);
                let name = choose|name: Seq<char>| #[trigger]
                    pending_claim(front, claims, requirements, n, name, id);
                let k = choose|k: int| 0 <= k < front.len() && front[k] == name;
                assert(ids[k] == name);
                assert(pending_claim(ids, claims, requirements, n, name, id));
            } else {
                assert(tail[i - head.len()] == id);
                assert(pending_claim(ids, claims, requirements, n, last, id));
            }
        }
        if exists|name: Seq<char>| #[trigger]
            pending_claim(ids, claims, requirements, n, name, id) {
            let name = choose|name: Seq<char>| #[trigger]
                pending_claim(ids, claims, requirements, n, name, id);
            if name == last {
                let i = choose|i: int| 0 <= i < tail.len() && tail[i] == id;
                assert(all[head.len() + i] == id);
            } else {
                let k = choose|k: int| 0 <= k < ids.len() && ids[k] == name;
                assert(front[k] == name);
                assert(pending_claim(front, claims, requirements, n, name, id));
                let i = choose|i: int| 0 <= i < head.len() && head[i] == id;
                assert(all[i] == id);
            }
        }
    } else {
        assert(all.len() == 0);
    }
}

/// Whether an earlier requirement that shares no evidence with the one at `k`
/// has matched an item.
pub open spec fn matched_before(
    requirements: Seq<EvidenceRequirementModel>,
    case: Case,
    k: int,
    j: int,
    id: Uuid,
) -> bool {
    0 <= j < k && !may_share(requirements[k], requirements[j]) && requirement_assessments(
        requirements,
        case,
    )[j].matched_evidence.contains(id)
}

/// The names of the requirements that a requirement must be independent of.
pub open spec fn kept_from(req: EvidenceRequirementModel) -> Seq<Seq<char>> {
    match req.independence {
        IndependenceRuleModel::MustBeIndependentOf(ids) => ids,
        IndependenceRuleModel::Unconstrained => Seq::empty(),
    }
}

/// Every requirement is judged on the evidence but for what belongs to others:
/// what is left out is what a requirement it must be independent of would take
/// alone, or what an earlier one that must be kept apart has matched. What the
/// named ones that come later would take is always left out.
pub proof fn law_only_the_evidence_of_others_is_left_out(
    requirements: Seq<EvidenceRequirementModel>,
    case: Case,
    k: int,
) -> (excluded: Seq<Uuid>)
    requires
        0 <= k < requirements.len(),
        ids_differ(requirements),
    ensures
        requirement_assessments(requirements, case)[k] == requirement_assessment(
            requirements[k],
            case,
            excluded,
        ),
        ({
            let ids = kept_from(requirements[k]);
            &&& forall|id: Uuid| #[trigger]
                excluded.contains(id) ==> (exists|j: int| #[trigger]
                    named_claim(requirements, case, ids, j, id)) || (exists|j: int| #[trigger]
                    matched_before(requirements, case, k, j, id))
            &&& forall|id: Uuid, j: int|
                k < j && #[trigger] named_claim(requirements, case, ids, j, id)
                    ==> excluded.contains(id)
        }),
{
    let n = requirements.len() as int;
    let req = requirements[k];
    let ids = kept_from(requirements[k]);
    let claims = lone_claims(requirements, case);
    let named = claims_of(ids, claims);
    assert(super::excluded_for(req, claims) =~= named);
    let first = requirement_assessment(req, case, named);
    lemma_lone_claims(requirements, case);
    lemma_first_assessments(requirements, case, n, k);
    let before = first_assessments(requirements, case, k);
    let avoided = taken(requirements, before, req);
    let pending = super::pending_claims(ids, claims, requirements, k);
    assert(super::independence_ids(req) =~= ids);
    assert forall|name: Seq<char>, id: Uuid| #[trigger]
        listed_claim(ids, claims, name, id) implies exists|j: int| #[trigger]
        named_claim(requirements, case, ids, j, id) by {
        let j = choose|j: int|
            0 <= j < requirements.len() && (#[trigger] requirements[j]).id == name;
        lemma_claims_alone(requirements[j], case, id);
        assert(named_claim(requirements, case, ids, j, id));
    }
    assert forall|id: Uuid, j: int| #[trigger]
        named_claim(requirements, case, ids, j, id) implies listed_claim(
        ids,
        claims,
        requirements[j].id,
        id,
    ) by {
        lemma_claims_alone(requirements[j], case, id);
    }
    let excluded = if super::share_evidence(first.matched_evidence, avoided) {
        avoided + pending
    } else {
        named
    };
    assert forall|id: Uuid| #[trigger] excluded.contains(id) implies (exists|j: int| #[trigger]
        named_claim(requirements, case, ids, j, id)) || (exists|j: int| #[trigger]
        matched_before(requirements, case, k, j, id)) by {
        lemma_claims_of(ids, claims, id);
        lemma_pending_claims(ids, claims, requirements, k, id);
        if excluded == avoided + pending && !named.contains(id) {
            let i = choose|i: int| 0 <= i < excluded.len() && excluded[i] == id;
            if i < avoided.len() {
                assert(avoided[i] == id);
                lemma_taken_from(requirements, before, req, id);
                let j = choose|j: int|
                    0 <= j < before.len() && kept_apart(req, requirements[j]) && (
                    #[trigger] before[j]).matched_evidence.contains(id);
                assert(before[j] == requirement_assessments(requirements, case)[j]);
                assert(matched_before(requirements, case, k, j, id));
            } else {
                assert(pending[i - avoided.len()] == id);
                let name = choose|name: Seq<char>| #[trigger]
                    pending_claim(ids, claims, requirements, k, name, id);
                assert(listed_claim(ids, claims, name, id));
            }
        } else {
            let name = choose|name: Seq<char>| #[trigger] listed_claim(ids, claims, name, id);
            assert(listed_claim(ids, claims, name, id));
        }
    }
    assert forall|id: Uuid, j: int|
        k < j && #[trigger] named_claim(requirements, case, ids, j, id) implies excluded.contains(
        id,
    ) by {
        let name = requirements[j].id;
        assert(listed_claim(ids, claims, name, id));
        lemma_claims_of(ids, claims, id);
        assert(!super::named_before(requirements, k, name)) by {
            if super::named_before(requirements, k, name) {
                let m = choose|m: int| 0 <= m < k && (#[trigger] requirements[m]).id == name;
                assert(requirements[m].id != requirements[j].id);
            }
        }
        assert(pending_claim(ids, claims, requirements, k, name, id));
        lemma_pending_claims(ids, claims, requirements, k, id);
        if excluded == avoided + pending {
            let i = choose|i: int| 0 <= i < pending.len() && pending[i] == id;
            assert((avoided + pending)[avoided.len() + i] == id);
        }
    }
    excluded
}

} // verus!

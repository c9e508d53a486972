//! Evidence graph: how evidence relates to a claim, what evidence is missing,
//! and whether evidence is too old to vouch for a claim.
use vstd::prelude::*;

use crate::capabilities::{SignalAvailability, SignalClass};
use crate::evidence::{Claim, Evidence, EvidenceKind};
use crate::ident::Uuid;
use crate::model::{lemma_deep_push, Deep, Tag};
use crate::time::{parse_rfc3339, rfc3339, whole_seconds, Timestamp};

verus! {

/// How one piece of evidence relates to a claim.
#[derive(Debug, Clone, Copy, PartialEq, Eq, Structural)]
pub enum EvidenceRelation {
    Supports,
    Contradicts,
    Neutral,
}

impl DeepView for EvidenceRelation {
    type V = EvidenceRelation;

    open spec fn deep_view(&self) -> EvidenceRelation {
        *self
    }
}

impl Deep for EvidenceRelation {
    fn deep_clone(&self) -> (r: Self) {
        *self
    }

    fn deep_eq(&self, other: &Self) -> (r: bool) {
        *self == *other
    }
}

/// A typed edge from a claim to a piece of evidence.
#[derive(Debug, Clone, PartialEq, Eq)]
pub struct EvidenceLink {
    pub id: Uuid,
    pub session_id: String,
    pub claim_id: Uuid,
    pub evidence_id: Uuid,
    pub relation: EvidenceRelation,
    /// When the link was recorded, in RFC 3339.
    pub linked_at: String,
}

/// The mathematical value of a [`EvidenceLink`].
#[verifier::ext_equal]
pub struct EvidenceLinkModel {
    pub id: Uuid,
    pub session_id: Seq<char>,
    pub claim_id: Uuid,
    pub evidence_id: Uuid,
    pub relation: EvidenceRelation,
    pub linked_at: Seq<char>,
}

impl DeepView for EvidenceLink {
    type V = EvidenceLinkModel;

    open spec fn deep_view(&self) -> EvidenceLinkModel {
        EvidenceLinkModel {
            id: self.id.deep_view(),
            session_id: self.session_id.deep_view(),
            claim_id: self.claim_id.deep_view(),
            evidence_id: self.evidence_id.deep_view(),
            relation: self.relation.deep_view(),
            linked_at: self.linked_at.deep_view(),
        }
    }
}

impl Deep for EvidenceLink {
    fn deep_clone(&self) -> (r: Self) {
        EvidenceLink {
            id: self.id.deep_clone(),
            session_id: self.session_id.deep_clone(),
            claim_id: self.claim_id.deep_clone(),
            evidence_id: self.evidence_id.deep_clone(),
            relation: self.relation.deep_clone(),
            linked_at: self.linked_at.deep_clone(),
        }
    }

    fn deep_eq(&self, other: &Self) -> (r: bool) {
        self.id.deep_eq(&other.id)
            && self.session_id.deep_eq(&other.session_id)
            && self.claim_id.deep_eq(&other.claim_id)
            && self.evidence_id.deep_eq(&other.evidence_id)
            && self.relation.deep_eq(&other.relation)
            && self.linked_at.deep_eq(&other.linked_at)
    }
}

/// A note that evidence was expected for a claim and could not be had.
#[derive(Debug, Clone, PartialEq, Eq)]
pub struct MissingEvidence {
    pub id: Uuid,
    pub session_id: String,
    pub claim_id: Uuid,
    pub signal_class: SignalClass,
    pub availability: SignalAvailability,
    pub detail: Option<String>,
    pub noted_at: String,
}

/// The mathematical value of a [`MissingEvidence`].
#[verifier::ext_equal]
pub struct MissingEvidenceModel {
    pub id: Uuid,
    pub session_id: Seq<char>,
    pub claim_id: Uuid,
    pub signal_class: Tag,
    pub availability: Tag,
    pub detail: Option<Seq<char>>,
    pub noted_at: Seq<char>,
}

impl DeepView for MissingEvidence {
    type V = MissingEvidenceModel;

    open spec fn deep_view(&self) -> MissingEvidenceModel {
        MissingEvidenceModel {
            id: self.id.deep_view(),
            session_id: self.session_id.deep_view(),
            claim_id: self.claim_id.deep_view(),
            signal_class: self.signal_class.deep_view(),
            availability: self.availability.deep_view(),
            detail: self.detail.deep_view(),
            noted_at: self.noted_at.deep_view(),
        }
    }
}

impl Deep for MissingEvidence {
    fn deep_clone(&self) -> (r: Self) {
        MissingEvidence {
            id: self.id.deep_clone(),
            session_id: self.session_id.deep_clone(),
            claim_id: self.claim_id.deep_clone(),
            signal_class: self.signal_class.deep_clone(),
            availability: self.availability.deep_clone(),
            detail: self.detail.deep_clone(),
            noted_at: self.noted_at.deep_clone(),
        }
    }

    fn deep_eq(&self, other: &Self) -> (r: bool) {
        self.id.deep_eq(&other.id)
            && self.session_id.deep_eq(&other.session_id)
            && self.claim_id.deep_eq(&other.claim_id)
            && self.signal_class.deep_eq(&other.signal_class)
            && self.availability.deep_eq(&other.availability)
            && self.detail.deep_eq(&other.detail)
            && self.noted_at.deep_eq(&other.noted_at)
    }
}

/// Everything known to relate to one claim, and everything known to be missing.
#[derive(Debug, Clone, PartialEq, Eq)]
pub struct EvidenceGraph {
    pub links: Vec<EvidenceLink>,
    pub missing: Vec<MissingEvidence>,
}

/// The mathematical value of a [`EvidenceGraph`].
#[verifier::ext_equal]
pub struct EvidenceGraphModel {
    pub links: Seq<EvidenceLinkModel>,
    pub missing: Seq<MissingEvidenceModel>,
}

impl DeepView for EvidenceGraph {
    type V = EvidenceGraphModel;

    open spec fn deep_view(&self) -> EvidenceGraphModel {
        EvidenceGraphModel {
            links: self.links.deep_view(),
            missing: self.missing.deep_view(),
        }
    }
}

impl Deep for EvidenceGraph {
    fn deep_clone(&self) -> (r: Self) {
        EvidenceGraph {
            links: self.links.deep_clone(),
            missing: self.missing.deep_clone(),
        }
    }

    fn deep_eq(&self, other: &Self) -> (r: bool) {
        self.links.deep_eq(&other.links)
            && self.missing.deep_eq(&other.missing)
    }
}

/// Both sides of an unresolved conflict on one claim.
#[derive(Debug, Clone, PartialEq, Eq)]
pub struct EvidenceConflict {
    pub supports: Vec<EvidenceLink>,
    pub contradicts: Vec<EvidenceLink>,
}

/// The mathematical value of a [`EvidenceConflict`].
#[verifier::ext_equal]
pub struct EvidenceConflictModel {
    pub supports: Seq<EvidenceLinkModel>,
    pub contradicts: Seq<EvidenceLinkModel>,
}

impl DeepView for EvidenceConflict {
    type V = EvidenceConflictModel;

    open spec fn deep_view(&self) -> EvidenceConflictModel {
        EvidenceConflictModel {
            supports: self.supports.deep_view(),
            contradicts: self.contradicts.deep_view(),
        }
    }
}

impl Deep for EvidenceConflict {
    fn deep_clone(&self) -> (r: Self) {
        EvidenceConflict {
            supports: self.supports.deep_clone(),
            contradicts: self.contradicts.deep_clone(),
        }
    }

    fn deep_eq(&self, other: &Self) -> (r: bool) {
        self.supports.deep_eq(&other.supports)
            && self.contradicts.deep_eq(&other.contradicts)
    }
}

impl Default for EvidenceGraph {
    fn default() -> (r: Self)
        ensures
            r.links@.len() == 0,
            r.missing@.len() == 0,
    {
        EvidenceGraph { links: Vec::new(), missing: Vec::new() }
    }
}

/// The links of one relation, in order.
pub open spec fn links_with(
    links: Seq<EvidenceLinkModel>,
    relation: EvidenceRelation,
) -> Seq<EvidenceLinkModel>
    decreases links.len(),
{
    if links.len() == 0 {
        Seq::empty()
    } else if links.last().relation == relation {
        links_with(links.drop_last(), relation).push(links.last())
    } else {
        links_with(links.drop_last(), relation)
    }
}

/// The conflict among a claim's links, if it has one.
pub open spec fn conflict_of(links: Seq<EvidenceLinkModel>) -> Option<EvidenceConflictModel> {
    let supports = links_with(links, EvidenceRelation::Supports);
    let contradicts = links_with(links, EvidenceRelation::Contradicts);
    if supports.len() == 0 || contradicts.len() == 0 {
        None
    } else {
        Some(EvidenceConflictModel { supports, contradicts })
    }
}

fn select_links(links: &Vec<EvidenceLink>, relation: EvidenceRelation) -> (r: Vec<EvidenceLink>)
    ensures
        r.deep_view() == links_with(links.deep_view(), relation),
{
    let ghost all = links.deep_view();
    let mut out: Vec<EvidenceLink> = Vec::new();
    let mut i: usize = 0;
    assert(out.deep_view() =~= Seq::<EvidenceLinkModel>::empty());
    while i < links.len()
        invariant
            i <= links.len(),
            all == links.deep_view(),
            out.deep_view() == links_with(all.take(i as int), relation),
        decreases links.len() - i,
    {
        proof {
            assert(all.take(i as int + 1).drop_last() =~= all.take(i as int));
            assert(all.take(i as int + 1).last() == links@[i as int].deep_view());
        }
        if links[i].relation == relation {
            let link = links[i].deep_clone();
            let ghost before = out;
            out.push(link);
            proof {
                lemma_deep_push(before, out, link);
            }
        }
        i = i + 1;
    }
    assert(all.take(all.len() as int) =~= all);
    out
}

impl EvidenceGraph {
    /// The claim's conflict: its supporting and its contradicting links, where
    /// it has both. Resolving it is left to others.
    pub fn conflict(&self) -> (r: Option<EvidenceConflict>)
        ensures
            r.deep_view() == conflict_of(self.links.deep_view()),
    {
        let supports = select_links(&self.links, EvidenceRelation::Supports);
        let contradicts = select_links(&self.links, EvidenceRelation::Contradicts);
        if supports.is_empty() || contradicts.is_empty() {
            None
        } else {
            Some(EvidenceConflict { supports, contradicts })
        }
    }
}

proof fn lemma_links_with(links: Seq<EvidenceLinkModel>, relation: EvidenceRelation)
    ensures
        (links_with(links, relation).len() > 0) == (exists|i: int|
            0 <= i < links.len() && (#[trigger] links[i]).relation == relation),
    decreases links.len(),
{
    if links.len() > 0 {
        let front = links.drop_last();
        lemma_links_with(front, relation);
        if links_with(front, relation).len() > 0 {
            let k = choose|i: int|
                0 <= i < front.len() && (#[trigger] front[i]).relation == relation;
            assert(links[k] == front[k]);
        }
        if exists|i: int| 0 <= i < links.len() && (#[trigger] links[i]).relation == relation {
            let k = choose|i: int|
                0 <= i < links.len() && (#[trigger] links[i]).relation == relation;
            if k < front.len() {
                assert(front[k] == links[k]);
            }
        }
        assert(links[links.len() - 1] == links.last());
    }
}

/// A claim has a conflict exactly when some link supports it and some link
/// contradicts it.
pub proof fn law_conflict_needs_both_sides(links: Seq<EvidenceLinkModel>)
    ensures
        (conflict_of(links) is Some) == ((exists|i: int|
            0 <= i < links.len() && (#[trigger] links[i]).relation == EvidenceRelation::Supports)
            && (exists|i: int|
            0 <= i < links.len() && (#[trigger] links[i]).relation
                == EvidenceRelation::Contradicts)),
{
    lemma_links_with(links, EvidenceRelation::Supports);
    lemma_links_with(links, EvidenceRelation::Contradicts);
}

/// How evidence can go stale relative to a claim.
#[derive(Debug, Clone, Copy, PartialEq, Eq, Structural)]
pub enum FreshnessWindow {
    /// A fact that elapsed time alone never makes stale.
    Durable,
    /// Point-in-time state that goes stale after `max_age_seconds`.
    Perishable { max_age_seconds: i64 },
}

impl DeepView for FreshnessWindow {
    type V = FreshnessWindow;

    open spec fn deep_view(&self) -> FreshnessWindow {
        *self
    }
}

impl Deep for FreshnessWindow {
    fn deep_clone(&self) -> (r: Self) {
        *self
    }

    fn deep_eq(&self, other: &Self) -> (r: bool) {
        *self == *other
    }
}

/// The default window of an exit code, in seconds.
pub const DEFAULT_EXIT_CODE_FRESHNESS_SECONDS: i64 = 3600;

impl EvidenceKind {
    /// The default window of a kind of evidence.
    pub open spec fn default_window(self) -> FreshnessWindow {
        match self {
            EvidenceKind::ExitCode => FreshnessWindow::Perishable {
                max_age_seconds: DEFAULT_EXIT_CODE_FRESHNESS_SECONDS,
            },
            _ => FreshnessWindow::Durable,
        }
    }

    pub fn default_freshness_window(&self) -> (r: FreshnessWindow)
        ensures
            r == self.default_window(),
    {
        match self {
            EvidenceKind::ExitCode => FreshnessWindow::Perishable {
                max_age_seconds: DEFAULT_EXIT_CODE_FRESHNESS_SECONDS,
            },
            EvidenceKind::ToolResult => FreshnessWindow::Durable,
            EvidenceKind::FileDiff => FreshnessWindow::Durable,
            EvidenceKind::ProcessObservation => FreshnessWindow::Durable,
            EvidenceKind::TranscriptExcerpt => FreshnessWindow::Durable,
        }
    }
}

/// Whether evidence is fresh enough to vouch for a claim.
#[derive(Debug, Clone, Copy, PartialEq, Eq)]
pub enum StalenessAssessment {
    /// Age never makes this evidence stale.
    NotTimeSensitive,
    Fresh { age_seconds: i64 },
    Stale { age_seconds: i64 },
    /// A timestamp does not parse, or the evidence was observed after the
    /// claim was made; never taken for fresh.
    Indeterminate { reason: &'static str },
}

/// The mathematical value of a [`StalenessAssessment`].
#[verifier::ext_equal]
pub enum StalenessModel {
    NotTimeSensitive,
    Fresh { age_seconds: i64 },
    Stale { age_seconds: i64 },
    Indeterminate { reason: Seq<char> },
}

impl DeepView for StalenessAssessment {
    type V = StalenessModel;

    open spec fn deep_view(&self) -> StalenessModel {
        match self {
            StalenessAssessment::NotTimeSensitive => StalenessModel::NotTimeSensitive,
            StalenessAssessment::Fresh { age_seconds } => StalenessModel::Fresh {
                age_seconds: *age_seconds,
            },
            StalenessAssessment::Stale { age_seconds } => StalenessModel::Stale {
                age_seconds: *age_seconds,
            },
            StalenessAssessment::Indeterminate { reason } => StalenessModel::Indeterminate {
                reason: reason@,
            },
        }
    }
}

/// The staleness of evidence observed at one time for a claim made at
/// another. Evidence observed after the claim, by however little, cannot
/// vouch for it.
pub open spec fn staleness(
    observed_at: Seq<char>,
    claimed_at: Seq<char>,
    window: FreshnessWindow,
) -> StalenessModel {
    match window {
        FreshnessWindow::Durable => StalenessModel::NotTimeSensitive,
        FreshnessWindow::Perishable { max_age_seconds } => match (
            rfc3339(observed_at),
            rfc3339(claimed_at),
        ) {
            (None, _) => StalenessModel::Indeterminate {
                reason: "evidence.observed_at is not valid RFC3339"@,
            },
            (Some(_), None) => StalenessModel::Indeterminate {
                reason: "claim.claimed_at is not valid RFC3339"@,
            },
            (Some(observed), Some(claimed)) => {
                let age = whole_seconds(claimed.parts(), observed.parts());
                if Timestamp::earlier(claimed, observed) || age < 0 {
                    StalenessModel::Indeterminate {
                        reason: "evidence.observed_at is after claim.claimed_at"@,
                    }
                } else if age > max_age_seconds {
                    StalenessModel::Stale { age_seconds: age as i64 }
                } else {
                    StalenessModel::Fresh { age_seconds: age as i64 }
                }
            },
        },
    }
}

/// Compares the time of a piece of evidence with that of a claim. No clock is
/// read, so the answer never changes.
pub fn staleness_of(evidence: &Evidence, claim: &Claim, window: FreshnessWindow) -> (r:
    StalenessAssessment)
    ensures
        r.deep_view() == staleness(evidence.observed_at@, claim.claimed_at@, window),
{
    let max_age_seconds = match window {
        FreshnessWindow::Durable => {
            return StalenessAssessment::NotTimeSensitive;
        },
        FreshnessWindow::Perishable { max_age_seconds } => max_age_seconds,
    };
    let observed = match parse_rfc3339(evidence.observed_at.as_str()) {
        Some(t) => t,
        None => {
            return StalenessAssessment::Indeterminate {
                reason: "evidence.observed_at is not valid RFC3339",
            };
        },
    };
    let claimed = match parse_rfc3339(claim.claimed_at.as_str()) {
        Some(t) => t,
        None => {
            return StalenessAssessment::Indeterminate {
                reason: "claim.claimed_at is not valid RFC3339",
            };
        },
    };
    let age_seconds = claimed.seconds_since(&observed);
    if claimed.is_before(&observed) || age_seconds < 0 {
        return StalenessAssessment::Indeterminate {
            reason: "evidence.observed_at is after claim.claimed_at",
        };
    }
    if age_seconds > max_age_seconds {
        StalenessAssessment::Stale { age_seconds }
    } else {
        StalenessAssessment::Fresh { age_seconds }
    }
}

/// [`staleness_of`] under the default window of the evidence's kind.
pub fn staleness_of_default(evidence: &Evidence, claim: &Claim) -> (r: StalenessAssessment)
    ensures
        r.deep_view() == staleness(
            evidence.observed_at@,
            claim.claimed_at@,
            evidence.kind.default_window(),
        ),
{
    staleness_of(evidence, claim, evidence.kind.default_freshness_window())
}

/// Perishable evidence is taken for fresh only if both times parse, it was
/// not observed after the claim, and its age is within the window.
pub proof fn law_fresh_evidence_is_within_its_window(
    observed_at: Seq<char>,
    claimed_at: Seq<char>,
    max_age_seconds: i64,
)
    ensures
        staleness(
            observed_at,
            claimed_at,
            FreshnessWindow::Perishable { max_age_seconds },
        ) is Fresh ==> rfc3339(observed_at) is Some && rfc3339(claimed_at) is Some
            && !Timestamp::earlier(rfc3339(claimed_at).unwrap(), rfc3339(observed_at).unwrap())
            && 0 <= whole_seconds(
            rfc3339(claimed_at).unwrap().parts(),
            rfc3339(observed_at).unwrap().parts(),
        ) <= max_age_seconds,
{
}

proof fn lemma_links_filtered(links: Seq<EvidenceLinkModel>, relation: EvidenceRelation)
    ensures
        links_with(links, relation) == links.filter(
            |l: EvidenceLinkModel| l.relation == relation,
        ),
    decreases links.len(),
{
    reveal(Seq::filter);
    if links.len() > 0 {
        lemma_links_filtered(links.drop_last(), relation);
    }
}

/// A conflict holds every link that supports the claim and every link that
/// contradicts it, each in their order. It is reported exactly if there are
/// links of both sides.
pub proof fn law_conflicts_gather_both_sides(links: Seq<EvidenceLinkModel>)
    ensures
        ({
            let supports = links.filter(|l: EvidenceLinkModel| l.relation is Supports);
            let contradicts = links.filter(|l: EvidenceLinkModel| l.relation is Contradicts);
            match conflict_of(links) {
                Some(c) => c.supports == supports && c.contradicts == contradicts && supports.len()
                    > 0 && contradicts.len() > 0,
                None => supports.len() == 0 || contradicts.len() == 0,
            }
        }),
{
    lemma_links_filtered(links, EvidenceRelation::Supports);
    lemma_links_filtered(links, EvidenceRelation::Contradicts);
    let supports = |l: EvidenceLinkModel| l.relation is Supports;
    let contradicts = |l: EvidenceLinkModel| l.relation is Contradicts;
    assert(supports =~= |l: EvidenceLinkModel| l.relation == EvidenceRelation::Supports);
    assert(contradicts =~= |l: EvidenceLinkModel| l.relation == EvidenceRelation::Contradicts);
}

/// Exit codes vouch for an hour; every other kind of evidence does not age.
pub proof fn law_only_exit_codes_age(kind: EvidenceKind)
    ensures
        kind is ExitCode ==> kind.default_window() == (FreshnessWindow::Perishable {
            max_age_seconds: 3600,
        }),
        !(kind is ExitCode) ==> kind.default_window() is Durable,
{
}

/// What is said of the age of evidence. What does not age is never judged.
/// Else the age is unclear if a time cannot be read or the evidence is from
/// after the claim; it is fresh up to the limit, and stale past it.
pub proof fn law_ages_are_judged_against_the_limit(
    observed_at: Seq<char>,
    claimed_at: Seq<char>,
    max_age_seconds: i64,
)
    ensures
        staleness(observed_at, claimed_at, FreshnessWindow::Durable) is NotTimeSensitive,
        ({
            let s = staleness(
                observed_at,
                claimed_at,
                FreshnessWindow::Perishable { max_age_seconds },
            );
            match (rfc3339(observed_at), rfc3339(claimed_at)) {
                (Some(observed), Some(at)) => {
                    let later = observed.parts().0 > at.parts().0 || (observed.parts().0
                        == at.parts().0 && observed.parts().1 > at.parts().1);
                    let age = whole_seconds(at.parts(), observed.parts());
                    &&& s is Indeterminate <==> later || age < 0
                    &&& s is Stale <==> !later && age >= 0 && age > max_age_seconds
                    &&& s is Fresh <==> !later && 0 <= age <= max_age_seconds
                    &&& s matches StalenessModel::Stale { age_seconds } ==> age_seconds
                        == age as i64
                    &&& s matches StalenessModel::Fresh { age_seconds } ==> age_seconds
                        == age as i64
                },
                _ => s is Indeterminate,
            }
        }),
{
}

} // verus!

//! What becomes of a verified bundle or revocation list that reaches the
//! cache, stated on what the cache records.
use vstd::prelude::*;

use super::bundle::{joined_bindings, VerifiedPolicyBundleModel};
use super::cache::{
    activation, has_policy, ingest_decision, law_policies_keep_their_issuer, new_entries, posture,
    without_policy, ActivationDecisionModel, ActivationRejectionModel, CachedBundleRef,
    CachedBundleRefModel, PolicyCacheState, PolicyCacheStateModel,
    PolicyPosture, RevocationIngestDecisionModel, RevocationIngestRejectionModel,
    RevocationSetModel,
};
use super::diagnostics::{DiagnosticCode, PolicyDiagnosticModel};
use super::revision::{PolicyId, PublishedPolicyRevisionModel};
use super::revocation::{RevocationEntryModel, RevocationTargetModel};
use super::target::PolicyBindingModel;
use crate::model::Tag;
use crate::order::{key_before, law_stable_sort_is_sorted_permutation, nondecreasing, Sortable};
use crate::time::{relaxed_rfc3339, Timestamp};

verus! {

/// Whether the revision or the payload of a candidate is revoked.
pub open spec fn revoked(set: RevocationSetModel, candidate: VerifiedPolicyBundleModel) -> bool {
    set.revision_digests.dom().contains(candidate.payload.revision.digest)
        || set.payload_digests.dom().contains(candidate.payload_digest)
}

/// Whether a policy was seen from some other issuer.
pub open spec fn seen_from_another(
    state: PolicyCacheStateModel,
    issuer: Seq<char>,
    policy_id: PolicyId,
) -> bool {
    exists|other: Seq<char>|
        other != issuer && #[trigger] state.high_water.dom().contains((other, policy_id))
}

/// Whether a binding can be used with a revision: it references its digest,
/// and does not pin for the local user.
pub open spec fn joinable(
    binding: PolicyBindingModel,
    revision: PublishedPolicyRevisionModel,
) -> bool {
    binding.revision_ref.digest == revision.digest && (binding.scope is LocalUser ==> forall|
        field: Tag,
    | !#[trigger] revision.body.pinned_fields.contains(field))
}

/// Whether every binding of a candidate can be used.
pub open spec fn all_joinable(candidate: VerifiedPolicyBundleModel) -> bool {
    forall|i: int|
        0 <= i < candidate.payload.bindings.len() ==> joinable(
            #[trigger] candidate.payload.bindings[i],
            candidate.payload.revision,
        )
}

proof fn lemma_joinable(binding: PolicyBindingModel, revision: PublishedPolicyRevisionModel)
    ensures
        super::target::join_refusal(binding, revision) is None <==> joinable(binding, revision),
{
    let pinned = revision.body.pinned_fields;
    if pinned == Set::<Tag>::empty() {
    } else if forall|field: Tag| !#[trigger] pinned.contains(field) {
        assert(pinned =~= Set::<Tag>::empty());
    }
}

proof fn lemma_all_joinable(
    bindings: Seq<PolicyBindingModel>,
    revision: PublishedPolicyRevisionModel,
)
    ensures
        joined_bindings(bindings, revision) is Ok <==> forall|i: int|
            0 <= i < bindings.len() ==> joinable(#[trigger] bindings[i], revision),
        joined_bindings(bindings, revision) matches Ok(bound) ==> bound.len() == bindings.len()
            && forall|i: int|
            0 <= i < bound.len() ==> (#[trigger] bound[i]).binding == bindings[i]
                && bound[i].revision == revision,
    decreases bindings.len(),
{
    if bindings.len() > 0 {
        let front = bindings.drop_last();
        let n = bindings.len() - 1;
        lemma_all_joinable(front, revision);
        lemma_joinable(bindings[n], revision);
        assert(bindings.last() == bindings[n]);
        assert forall|i: int| 0 <= i < n implies #[trigger] bindings[i] == front[i] by {}
        if forall|i: int| 0 <= i < bindings.len() ==> joinable(#[trigger] bindings[i], revision) {
            assert forall|i: int| 0 <= i < front.len() implies joinable(
                #[trigger] front[i],
                revision,
            ) by {
                assert(joinable(bindings[i], revision));
            }
        }
        if joined_bindings(bindings, revision) is Ok {
            assert forall|i: int| 0 <= i < bindings.len() implies joinable(
                #[trigger] bindings[i],
                revision,
            ) by {
                if i < n {
                    assert(joinable(front[i], revision));
                }
            }
        }
    }
}

/// The bindings of a bundle are joined with its revision, in order, exactly if
/// each references its digest and none pins for the local user.
pub proof fn law_bindings_are_joined_as_they_stand(
    bindings: Seq<PolicyBindingModel>,
    revision: PublishedPolicyRevisionModel,
)
    ensures
        joined_bindings(bindings, revision) is Ok <==> forall|i: int|
            0 <= i < bindings.len() ==> joinable(#[trigger] bindings[i], revision),
        joined_bindings(bindings, revision) matches Ok(bound) ==> bound.len() == bindings.len()
            && forall|i: int|
            0 <= i < bound.len() ==> (#[trigger] bound[i]).binding == bindings[i]
                && bound[i].revision == revision,
{
    lemma_all_joinable(bindings, revision);
}

/// Whether a cached member is what a candidate brings at an instant.
pub open spec fn brought_by(
    m: CachedBundleRefModel,
    candidate: VerifiedPolicyBundleModel,
    now: Timestamp,
) -> bool {
    &&& m.bundle_id == candidate.payload.bundle_id
    &&& m.issuer == candidate.payload.provenance.issuer
    &&& m.sequence == candidate.payload.sequence
    &&& m.policy_id == candidate.payload.revision.body.policy_id
    &&& m.revision == candidate.payload.revision.body.revision
    &&& m.revision_digest == candidate.payload.revision.digest
    &&& m.payload_digest == candidate.payload_digest
    &&& m.verified_by == candidate.verified_by
    &&& relaxed_rfc3339(candidate.payload.not_before) == Some(m.not_before)
    &&& relaxed_rfc3339(candidate.payload.expires_at) == Some(m.expires_at)
    &&& m.first_activated_at == now
    &&& m.confirmed_at == now
}

/// The members of the active generation, if there is one.
pub open spec fn held(state: PolicyCacheStateModel) -> Seq<CachedBundleRefModel> {
    match state.active {
        Some(generation) => generation.members,
        None => Seq::empty(),
    }
}

/// The members of other policies, in their order.
pub open spec fn others(members: Seq<CachedBundleRefModel>, policy_id: PolicyId) -> Seq<
    CachedBundleRefModel,
> {
    members.filter(|m: CachedBundleRefModel| m.policy_id != policy_id)
}

proof fn lemma_without_policy_filters(members: Seq<CachedBundleRefModel>, policy_id: PolicyId)
    ensures
        without_policy(members, policy_id) == others(members, policy_id),
    decreases members.len(),
{
    reveal(Seq::filter);
    if members.len() > 0 {
        lemma_without_policy_filters(members.drop_last(), policy_id);
    }
}

/// A candidate that is revoked is refused, with what the revocation says. That
/// of the revision goes before that of the payload.
pub proof fn law_revocations_decide_first(
    candidate: VerifiedPolicyBundleModel,
    state: PolicyCacheStateModel,
    now: Timestamp,
)
    ensures
        ({
            let of_revision = state.revocations.revision_digests;
            let of_payload = state.revocations.payload_digests;
            let digest = candidate.payload.revision.digest;
            let payload_digest = candidate.payload_digest;
            let policy_id = candidate.payload.revision.body.policy_id;
            &&& (activation(candidate, state, now) matches Err(e) && e is Revoked) <==> revoked(
                state.revocations,
                candidate,
            )
            &&& of_revision.dom().contains(digest) ==> activation(candidate, state, now) == Err::<
                ActivationDecisionModel,
                _,
            >(
                ActivationRejectionModel::Revoked {
                    policy_id,
                    target: RevocationTargetModel::RevisionDigest { digest },
                    reason: of_revision[digest].reason,
                    revoked_at: of_revision[digest].revoked_at,
                },
            )
            &&& !of_revision.dom().contains(digest) && of_payload.dom().contains(payload_digest)
                ==> activation(candidate, state, now) == Err::<ActivationDecisionModel, _>(
                ActivationRejectionModel::Revoked {
                    policy_id,
                    target: RevocationTargetModel::PayloadDigest { digest: payload_digest },
                    reason: of_payload[payload_digest].reason,
                    revoked_at: of_payload[payload_digest].revoked_at,
                },
            )
        }),
{
}

/// What happens to a candidate that is not revoked and whose policy was seen
/// from no other issuer. Behind the highest sequence seen it is refused; at it,
/// it is confirmed if it is the very bundle recorded there, else refused; past
/// it, or where none was seen, it is activated if its bindings can be used and
/// its times can be read.
pub proof fn law_sequences_decide(
    candidate: VerifiedPolicyBundleModel,
    state: PolicyCacheState,
    now: Timestamp,
)
    requires
        !revoked(state.deep_view().revocations, candidate),
        !seen_from_another(
            state.deep_view(),
            candidate.payload.provenance.issuer,
            candidate.payload.revision.body.policy_id,
        ),
    ensures
        ({
            let s = state.deep_view();
            let issuer = candidate.payload.provenance.issuer;
            let policy_id = candidate.payload.revision.body.policy_id;
            let sequence = candidate.payload.sequence;
            let seen = s.high_water.dom().contains((issuer, policy_id));
            let mark = s.high_water[(issuer, policy_id)];
            let readable = relaxed_rfc3339(candidate.payload.not_before) is Some && relaxed_rfc3339(
                candidate.payload.expires_at,
            ) is Some;
            let decision = activation(candidate, s, now);
            &&& seen && sequence < mark.max_sequence ==> decision == Err::<
                ActivationDecisionModel,
                _,
            >(
                ActivationRejectionModel::SequenceNotAdvanced {
                    issuer,
                    policy_id,
                    candidate: sequence,
                    high_water: mark.max_sequence,
                },
            )
            &&& seen && sequence == mark.max_sequence && mark.last_bundle_id
                == candidate.payload.bundle_id && mark.last_payload_digest
                == candidate.payload_digest ==> decision == Ok::<_, ActivationRejectionModel>(
                ActivationDecisionModel::Confirm {
                    policy_id,
                    bundle_id: candidate.payload.bundle_id,
                    payload_digest: candidate.payload_digest,
                },
            )
            &&& seen && sequence == mark.max_sequence && (mark.last_bundle_id
                != candidate.payload.bundle_id || mark.last_payload_digest
                != candidate.payload_digest) ==> decision == Err::<ActivationDecisionModel, _>(
                ActivationRejectionModel::SequenceReused {
                    policy_id,
                    sequence,
                    recorded_bundle_id: mark.last_bundle_id,
                },
            )
            &&& (!seen || sequence > mark.max_sequence) && !all_joinable(candidate) ==> (
            decision matches Err(e) && e is BindingsUnusable)
            &&& (!seen || sequence > mark.max_sequence) && all_joinable(candidate) && !readable
                ==> (decision matches Err(e) && e is Persistence)
            &&& (decision matches Ok(d) && d is Activate) <==> (!seen || sequence
                > mark.max_sequence) && all_joinable(candidate) && readable
        }),
{
    law_policies_keep_their_issuer(candidate, state, now);
    lemma_all_joinable(candidate.payload.bindings, candidate.payload.revision);
}

/// An activation leaves every member of another policy as it is and puts in
/// exactly one for the candidate's, in the order of the policies. It says which
/// policy was there before.
pub proof fn law_activation_brings_exactly_the_candidate(
    candidate: VerifiedPolicyBundleModel,
    state: PolicyCacheStateModel,
    now: Timestamp,
)
    ensures
        activation(candidate, state, now) matches Ok(
            ActivationDecisionModel::Activate { members, replaced },
        ) ==> {
            let policy_id = candidate.payload.revision.body.policy_id;
            let before = held(state);
            &&& exists|m: CachedBundleRefModel| #[trigger]
                brought_by(m, candidate, now) && members.to_multiset() == others(
                    before,
                    policy_id,
                ).push(m).to_multiset()
            &&& forall|i: int, j: int|
                #![trigger members[i], members[j]]
                0 <= i < j < members.len() ==> members[i].policy_id.0.0 <= members[j].policy_id.0.0
            &&& replaced is Some <==> exists|i: int|
                0 <= i < before.len() && (#[trigger] before[i]).policy_id == policy_id
            &&& replaced is Some ==> replaced == Some(policy_id)
        },
{
    if let Ok(ActivationDecisionModel::Activate { members, replaced }) = activation(
        candidate,
        state,
        now,
    ) {
        let policy_id = candidate.payload.revision.body.policy_id;
        let before = held(state);
        assert(before == super::cache::active_members(state));
        assert(relaxed_rfc3339(candidate.payload.not_before) is Some);
        assert(relaxed_rfc3339(candidate.payload.expires_at) is Some);
        lemma_without_policy_filters(before, policy_id);
        let m = super::cache::candidate_member(
            candidate,
            relaxed_rfc3339(candidate.payload.not_before).unwrap(),
            relaxed_rfc3339(candidate.payload.expires_at).unwrap(),
            now,
        );
        assert(brought_by(m, candidate, now));
        law_stable_sort_is_sorted_permutation::<CachedBundleRef>(
            without_policy(before, policy_id).push(m),
        );
        assert(nondecreasing::<CachedBundleRef>(members));
        assert forall|i: int, j: int|
            #![trigger members[i], members[j]]
            0 <= i < j < members.len() implies members[i].policy_id.0.0
            <= members[j].policy_id.0.0 by {
            assert(!key_before(
                CachedBundleRef::sort_key(members[j]),
                CachedBundleRef::sort_key(members[i]),
            ));
        }
        assert(members.to_multiset() == others(before, policy_id).push(m).to_multiset());
        assert(has_policy(before, policy_id) == exists|i: int|
            0 <= i < before.len() && (#[trigger] before[i]).policy_id == policy_id);
        assert(replaced == if has_policy(before, policy_id) {
            Some(policy_id)
        } else {
            None
        });
    }
}

/// Whether what an entry names is recorded as revoked. What cannot be read
/// never is.
pub open spec fn on_record(set: RevocationSetModel, entry: RevocationEntryModel) -> bool {
    match entry.target {
        RevocationTargetModel::RevisionDigest { digest } => set.revision_digests.dom().contains(
            digest,
        ),
        RevocationTargetModel::PayloadDigest { digest } => set.payload_digests.dom().contains(
            digest,
        ),
        RevocationTargetModel::Unrecognized => false,
    }
}

proof fn lemma_new_entries_filter(set: RevocationSetModel, entries: Seq<RevocationEntryModel>)
    ensures
        new_entries(set, entries) == entries.filter(
            |e: RevocationEntryModel| !on_record(set, e),
        ),
    decreases entries.len(),
{
    reveal(Seq::filter);
    if entries.len() > 0 {
        lemma_new_entries_filter(set, entries.drop_last());
    }
}

/// A revocation list behind the last one of its issuer is refused; the same one
/// again changes nothing; a later one, or the first, brings those of its
/// entries that are not on record, in their order.
pub proof fn law_revocation_lists_only_move_forward(
    set: RevocationSetModel,
    issuer: Seq<char>,
    sequence: u64,
    entries: Seq<RevocationEntryModel>,
)
    ensures
        ({
            let known = set.max_sequence_by_issuer.dom().contains(issuer);
            let last = set.max_sequence_by_issuer[issuer];
            let decision = ingest_decision(set, issuer, sequence, entries);
            &&& known && sequence < last ==> decision == Err::<RevocationIngestDecisionModel, _>(
                RevocationIngestRejectionModel::SequenceNotAdvanced {
                    issuer,
                    candidate: sequence,
                    high_water: last,
                },
            )
            &&& known && sequence == last ==> decision == Ok::<_, RevocationIngestRejectionModel>(
                RevocationIngestDecisionModel::AlreadyCurrent { issuer, sequence },
            )
            &&& !known || sequence > last ==> decision == Ok::<_, RevocationIngestRejectionModel>(
                RevocationIngestDecisionModel::Apply {
                    issuer,
                    sequence,
                    new_entries: entries.filter(|e: RevocationEntryModel| !on_record(set, e)),
                    superseded_sequence: if known {
                        Some(last)
                    } else {
                        None
                    },
                },
            )
        }),
{
    lemma_new_entries_filter(set, entries);
}

/// Whether some diagnostic has a code.
pub open spec fn told(diagnostics: Seq<PolicyDiagnosticModel>, code: DiagnosticCode) -> bool {
    exists|i: int| 0 <= i < diagnostics.len() && (#[trigger] diagnostics[i]).code == code
}

/// Policy is degraded exactly if it was once configured and nothing usable is
/// left. The reason is a revocation where one is told, else an unverifiable
/// cache, else a missing trust store, else that nothing usable is left.
pub proof fn law_degradation_names_its_reason(
    ever_configured: bool,
    usable_is_empty: bool,
    diagnostics: Seq<PolicyDiagnosticModel>,
)
    ensures
        ({
            let p = posture(ever_configured, usable_is_empty, diagnostics);
            let lost = told(diagnostics, DiagnosticCode::PolicyCacheRevoked);
            let doubtful = told(diagnostics, DiagnosticCode::PolicyCacheUnverifiable);
            let untrusted = told(diagnostics, DiagnosticCode::TrustStoreUnavailable);
            &&& p is Normal <==> !(ever_configured && usable_is_empty)
            &&& p matches PolicyPosture::Degraded { reason } ==> {
                &&& reason is Revoked <==> lost
                &&& reason is Unverifiable <==> !lost && doubtful
                &&& reason is TrustStoreUnavailable <==> !lost && !doubtful && untrusted
                &&& reason is NoUsableGeneration <==> !lost && !doubtful && !untrusted
            }
        }),
{
}

/// Why a binding cannot be used: it references another digest, or else pins for
/// the local user. The binding is named.
pub proof fn law_unusable_bindings_tell_why(
    binding: PolicyBindingModel,
    revision: PublishedPolicyRevisionModel,
)
    ensures
        super::target::join_refusal(binding, revision) matches Some(d) ==> {
            &&& d.code == DiagnosticCode::DigestMismatch <==> binding.revision_ref.digest
                != revision.digest
            &&& d.code == DiagnosticCode::PinAtLocalUserLayer <==> binding.revision_ref.digest
                == revision.digest
            &&& d.severity is Error
            &&& d.bindings.len() == 1 && d.bindings[0] == binding.binding_id
        },
{
}

} // verus!

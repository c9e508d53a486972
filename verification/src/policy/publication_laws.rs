//! Which drafts are published, and what is published of them.
use vstd::prelude::*;

use super::content::{EnforcementRule, EnforcementRuleModel, PolicyContentModel};
use super::diagnostics::{DiagnosticCode, PolicyDiagnosticModel};
use super::field::PolicyFieldId;
use super::laws::{lemma_normalized_members, lemma_same_members};
use super::resolution_laws::sets;
use super::revision::{
    body_digest, draft_diagnostics, duplicate_diagnostics, name_diagnostics, pin_diagnostics,
    publication, rule_diagnostics, wire_refusal, PolicyDraft, PolicyDraftModel,
    PolicyRevisionBodyModel,
};
use super::strictness::{classes_differ, lemma_sorted_rules_ascend};
use crate::model::{deep_seq, Tag};
use crate::order::{
    key_before, law_sorted_members_are_canonical, law_stable_sort_is_sorted_permutation,
    lemma_ascending_unique, lemma_sorted_set_members, listing, nondecreasing, stably_sorted,
    tag_key,
};
use crate::text::is_blank;

verus! {

/// Whether a later rule never belongs before an earlier one.
pub open spec fn in_order(rules: Seq<EnforcementRuleModel>) -> bool {
    forall|i: int, j: int|
        #![trigger rules[i], rules[j]]
        0 <= i < j < rules.len() ==> !key_before(
            tag_key(rules[j].action_class),
            tag_key(rules[i].action_class),
        )
}

/// Whether a draft may be published, apart from what it supersedes: its name
/// says something, its rules are in order and for different action classes,
/// and each known field that it pins is set.
pub open spec fn fit(draft: PolicyDraftModel) -> bool {
    &&& !is_blank(draft.display_name)
    &&& draft.content.enforcement.rules matches Some(rules) ==> classes_differ(rules) && in_order(
        rules,
    )
    &&& forall|field: Tag| #[trigger]
        draft.pinned_fields.contains(field) && field.index < 9 ==> sets(draft.content, field.index)
}

/// Whether some note has a code.
pub open spec fn noted(notes: Seq<PolicyDiagnosticModel>, code: DiagnosticCode) -> bool {
    exists|i: int| 0 <= i < notes.len() && (#[trigger] notes[i]).code == code
}

proof fn lemma_duplicates(rules: Seq<EnforcementRuleModel>, n: int)
    requires
        0 <= n <= rules.len(),
    ensures
        duplicate_diagnostics(rules, n).len() == 0 <==> forall|i: int, j: int|
            #![trigger rules[i], rules[j]]
            0 <= i < j < n ==> rules[i].action_class != rules[j].action_class,
    decreases n,
{
    if n > 0 {
        lemma_duplicates(rules, n - 1);
        if super::revision::repeats_class(rules, n - 1) {
            let j = choose|j: int|
                0 <= j < n - 1 && (#[trigger] rules[j]).action_class == rules[n - 1].action_class;
            assert(rules[j].action_class == rules[n - 1].action_class);
        } else {
            assert forall|i: int| 0 <= i < n - 1 implies (#[trigger] rules[i]).action_class
                != rules[n - 1].action_class by {}
        }
    }
}

proof fn lemma_pins(content: PolicyContentModel, pins: Seq<Tag>, n: int)
    requires
        0 <= n <= pins.len(),
        forall|k: int| 0 <= k < pins.len() ==> 0 <= (#[trigger] pins[k]).index,
    ensures
        pin_diagnostics(content, pins, n).len() == 0 <==> forall|k: int|
            0 <= k < n && (#[trigger] pins[k]).index < 9 ==> sets(content, pins[k].index),
    decreases n,
{
    if n > 0 {
        lemma_pins(content, pins, n - 1);
    }
}

proof fn lemma_sorted_stays(rules: Seq<EnforcementRuleModel>)
    requires
        classes_differ(rules),
        in_order(rules),
    ensures
        stably_sorted::<EnforcementRule>(rules) == rules,
{
    let sorted = stably_sorted::<EnforcementRule>(rules);
    lemma_sorted_rules_ascend(rules);
    law_stable_sort_is_sorted_permutation::<EnforcementRule>(rules);
    lemma_same_members(sorted, rules);
    assert forall|i: int, j: int|
        #![trigger rules[i], rules[j]]
        0 <= i < j < rules.len() implies key_before(
        tag_key(rules[i].action_class),
        tag_key(rules[j].action_class),
    ) by {
        crate::order::lemma_key_total(tag_key(rules[i].action_class), tag_key(rules[j].action_class));
        assert(rules[i].action_class != rules[j].action_class);
    }
    assert(sorted.to_set() =~= rules.to_set());
    lemma_ascending_unique::<EnforcementRule>(sorted, rules);
}

/// Whether a published content is what a draft says: the same throughout, but
/// for the order in which it lists required signals.
pub open spec fn says_the_same(content: PolicyContentModel, draft: PolicyContentModel) -> bool {
    &&& content.collection == draft.collection
    &&& content.egress == draft.egress
    &&& content.cache == draft.cache
    &&& content.enforcement.rules == draft.enforcement.rules
    &&& content.sensors.disabled == draft.sensors.disabled
    &&& content.sensors.required_signals is Some <==> draft.sensors.required_signals is Some
    &&& content.sensors.required_signals is Some ==> forall|class: Tag| #[trigger]
        content.sensors.required_signals.unwrap().contains(class)
            == draft.sensors.required_signals.unwrap().contains(class)
}

/// A draft is published exactly if it is fit and does not supersede the
/// revision it would become. The revision has the current version, the draft's
/// data and the given time, says what the draft says, and carries the digest of
/// its own body.
pub proof fn law_fit_drafts_are_published_as_they_stand(
    draft: PolicyDraft,
    published_at: Seq<char>,
)
    requires
        forall|field: Tag| #[trigger]
            draft.deep_view().pinned_fields.contains(field) ==> 0 <= field.index,
    ensures
        ({
            let d = draft.deep_view();
            match publication(d, published_at) {
                Ok(revision) => {
                    &&& fit(d)
                    &&& d.supersedes != Some(revision.digest)
                    &&& revision.digest == body_digest(revision.body)
                    &&& revision.body.schema_version == 1
                    &&& revision.body.policy_id == d.policy_id
                    &&& revision.body.revision == d.revision
                    &&& revision.body.supersedes == d.supersedes
                    &&& revision.body.published_at == published_at
                    &&& revision.body.display_name == d.display_name
                    &&& revision.body.pinned_fields == d.pinned_fields
                    &&& says_the_same(revision.body.content, d.content)
                },
                Err(notes) => {
                    &&& notes.len() > 0
                    &&& fit(d) ==> notes.len() == 1 && notes[0].code
                        == DiagnosticCode::SupersedesSelf && d.supersedes == Some(
                        body_digest(super::revision::published_body(d, published_at)),
                    )
                },
            }
        }),
{
    let d = draft.deep_view();
    let pins = listing::<PolicyFieldId>(d.pinned_fields);
    let items = lemma_sorted_set_members(draft.pinned_fields);
    let tags = deep_seq(items);
    law_sorted_members_are_canonical::<PolicyFieldId>(tags);
    assert(pins.to_set() == d.pinned_fields);
    assert forall|field: Tag| d.pinned_fields.contains(field) == pins.contains(field) by {
        assert(pins.to_set().contains(field) == pins.contains(field));
    }
    assert forall|k: int| 0 <= k < pins.len() implies 0 <= (#[trigger] pins[k]).index by {
        assert(pins.contains(pins[k]));
        assert(d.pinned_fields.contains(pins[k]));
    }
    lemma_pins(d.content, pins, pins.len() as int);
    let pinned_ok = forall|field: Tag| #[trigger]
        d.pinned_fields.contains(field) && field.index < 9 ==> sets(d.content, field.index);
    assert(pin_diagnostics(d.content, pins, pins.len() as int).len() == 0 <==> pinned_ok) by {
        if pin_diagnostics(d.content, pins, pins.len() as int).len() == 0 {
            assert forall|field: Tag| #[trigger]
                d.pinned_fields.contains(field) && field.index < 9 implies sets(
                d.content,
                field.index,
            ) by {
                let k = choose|k: int| 0 <= k < pins.len() && pins[k] == field;
                assert(pins[k].index < 9);
            }
        }
        if pinned_ok {
            assert forall|k: int| 0 <= k < pins.len() && (#[trigger] pins[k]).index < 9 implies sets(
                d.content,
                pins[k].index,
            ) by {
                assert(pins.contains(pins[k]));
                assert(d.pinned_fields.contains(pins[k]));
            }
        }
    }
    match d.content.enforcement.rules {
        Some(rules) => {
            lemma_duplicates(rules, rules.len() as int);
            assert(classes_differ(rules) == (duplicate_diagnostics(
                rules,
                rules.len() as int,
            ).len() == 0));
            assert(nondecreasing::<EnforcementRule>(rules) == in_order(rules)) by {
                if in_order(rules) {
                    assert forall|i: int, j: int|
                        #![trigger rules[i], rules[j]]
                        0 <= i < j < rules.len() implies !key_before(
                        <EnforcementRule as crate::order::Sortable>::sort_key(rules[j]),
                        <EnforcementRule as crate::order::Sortable>::sort_key(rules[i]),
                    ) by {}
                }
            }
            if classes_differ(rules) && in_order(rules) {
                lemma_sorted_stays(rules);
            }
        },
        None => {},
    }
    match d.content.sensors.required_signals {
        Some(signals) => {
            assert forall|class: Tag| #[trigger]
                super::content::normalized_signals(signals).contains(class) == signals.contains(
                    class,
                ) by {
                lemma_normalized_members(signals, class);
            }
        },
        None => {},
    }
    assert(draft_diagnostics(d).len() == 0 <==> fit(d));
}

/// A revision read back is accepted exactly if its version is the one read here
/// and its digest is that of its body.
pub proof fn law_revisions_are_read_back_by_their_digest(
    body: PolicyRevisionBodyModel,
    digest: Seq<char>,
)
    ensures
        match wire_refusal(body, digest) {
            None => body.schema_version == 1 && digest == body_digest(body),
            Some(d) => {
                &&& body.schema_version != 1 || digest != body_digest(body)
                &&& d.code == DiagnosticCode::UnsupportedSchemaVersion <==> body.schema_version != 1
                &&& d.code == DiagnosticCode::DigestMismatch <==> body.schema_version == 1
            },
        },
{
    let supported = super::content::SUPPORTED_POLICY_SCHEMA_VERSIONS@;
    assert(supported.len() == 1 && supported[0] == 1);
    assert(supported.contains(body.schema_version) ==> body.schema_version == 1);
    assert(body.schema_version == 1 ==> supported.contains(supported[0]));
}

/// The notes that refuse a draft name each fault that it has.
pub proof fn law_refused_drafts_name_their_faults(draft: PolicyDraftModel, published_at: Seq<char>)
    ensures
        is_blank(draft.display_name) ==> (publication(draft, published_at) matches Err(notes)
            && noted(notes, DiagnosticCode::EmptyDisplayName)),
        (draft.content.enforcement.rules matches Some(rules) && !in_order(rules)) ==> (publication(
            draft,
            published_at,
        ) matches Err(notes) && noted(notes, DiagnosticCode::UnsortedEnforcementRules)),
        (draft.content.enforcement.rules matches Some(rules) && !classes_differ(rules)) ==> (
        publication(draft, published_at) matches Err(notes) && noted(
            notes,
            DiagnosticCode::DuplicateActionClassRule,
        )),
{
    let a = name_diagnostics(draft.display_name);
    let b = rule_diagnostics(draft.content.enforcement.rules);
    let notes = draft_diagnostics(draft);
    if is_blank(draft.display_name) {
        assert(notes[0] == a[0]);
    }
    match draft.content.enforcement.rules {
        Some(rules) => {
            let n = rules.len() as int;
            lemma_duplicates(rules, n);
            let dups = duplicate_diagnostics(rules, n);
            if !in_order(rules) {
                let (i, j) = choose|i: int, j: int|
                    #![trigger rules[i], rules[j]]
                    0 <= i < j < rules.len() && key_before(
                        tag_key(rules[j].action_class),
                        tag_key(rules[i].action_class),
                    );
                assert(!nondecreasing::<EnforcementRule>(rules)) by {
                    assert(key_before(
                        <EnforcementRule as crate::order::Sortable>::sort_key(rules[j]),
                        <EnforcementRule as crate::order::Sortable>::sort_key(rules[i]),
                    ));
                }
                assert(b[b.len() - 1].code == DiagnosticCode::UnsortedEnforcementRules);
                assert(notes[a.len() + b.len() - 1] == b[b.len() - 1]);
            }
            if !classes_differ(rules) {
                assert(dups.len() > 0);
                lemma_duplicate_code(rules, n);
                assert(b[0] == dups[0]);
                assert(notes[a.len() as int] == b[0]);
            }
        },
        None => {},
    }
}

proof fn lemma_duplicate_code(rules: Seq<EnforcementRuleModel>, n: int)
    requires
        0 <= n <= rules.len(),
        duplicate_diagnostics(rules, n).len() > 0,
    ensures
        duplicate_diagnostics(rules, n)[0].code == DiagnosticCode::DuplicateActionClassRule,
    decreases n,
{
    if duplicate_diagnostics(rules, n - 1).len() > 0 {
        lemma_duplicate_code(rules, n - 1);
    }
}

} // verus!

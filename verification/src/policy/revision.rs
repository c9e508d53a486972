//! Immutable published policy revisions.
//!
//! A revision is identified by the digest of its canonical bytes: the compact
//! JSON of its body, members in declaration order.
use vstd::prelude::*;

use super::content::{
    normalize_signal_classes, normalized_signals, ActionClass, EnforcementRule,
    EnforcementRuleModel, EnforcementScopeModel, PolicyContent, PolicyContentModel,
    SensorScopeModel, POLICY_SCHEMA_VERSION, SUPPORTED_POLICY_SCHEMA_VERSIONS,
};
use super::diagnostics::{
    plain_diagnostic, DiagnosticCode, DiagnosticSeverity, PolicyDiagnostic, PolicyDiagnosticModel,
    PolicyValidationReport,
};
use super::field::{field_of, get_field, PolicyFieldId};
use crate::code::{lemma_pair_code_ends, lemma_text_code_ends, text_code, Coded};
use crate::crypto::{digest_string, digest_text};
use crate::ident::{uuid_text, Uuid};
use crate::json::{
    json_member, json_object, json_string, quote_json, write_member, write_object, JsonText,
};
use crate::model::{known_tag, lemma_deep_push, Deep, Tag};
use crate::order::{
    key_before, listing, nondecreasing, stable_sort, stably_sorted, OrderKey, Ordered, SortedSet,
    Sortable,
};
use crate::text::{blank, decimal, is_blank, number_list, to_decimal, to_number_list};

use vstd::utf8::encode_utf8;

verus! {

/// Identifies one policy, a lineage of revisions.
#[derive(Debug, Clone, Copy, PartialEq, Eq, PartialOrd, Ord, Hash, Structural)]
pub struct PolicyId(pub Uuid);

impl DeepView for PolicyId {
    type V = PolicyId;

    open spec fn deep_view(&self) -> PolicyId {
        *self
    }
}

impl Deep for PolicyId {
    fn deep_clone(&self) -> (r: Self) {
        *self
    }

    fn deep_eq(&self, other: &Self) -> (r: bool) {
        *self == *other
    }
}

/// `"sha256:<64 lowercase hex>"`, over the canonical bytes of a revision body.
#[derive(Debug, Clone, PartialEq, Eq, PartialOrd, Ord, Hash)]
pub struct RevisionDigest(String);

impl DeepView for RevisionDigest {
    type V = Seq<char>;

    closed spec fn deep_view(&self) -> Seq<char> {
        self.0@
    }
}

impl Deep for RevisionDigest {
    fn deep_clone(&self) -> (r: Self) {
        RevisionDigest(self.0.clone())
    }

    fn deep_eq(&self, other: &Self) -> (r: bool) {
        self.0 == other.0
    }
}

impl RevisionDigest {
    /// A digest as it was written; nothing is checked.
    pub fn from_text(text: String) -> (r: Self)
        ensures
            r.deep_view() == text@,
    {
        RevisionDigest(text)
    }

    pub fn as_str(&self) -> (r: &str)
        ensures
            r@ == self.deep_view(),
    {
        self.0.as_str()
    }
}

impl Sortable for RevisionDigest {
    open spec fn sort_key(v: Seq<char>) -> OrderKey {
        crate::order::text_key(v)
    }

    fn sorts_before(&self, other: &Self) -> (r: bool) {
        crate::text::str_before(self.0.as_str(), other.0.as_str())
    }
}

impl Ordered for RevisionDigest {
    proof fn key_is_injective(a: Seq<char>, b: Seq<char>) {
    }
}

/// A pointer to exactly one published revision, never the content itself.
#[derive(Debug, Clone, PartialEq, Eq)]
pub struct PolicyRevisionRef {
    pub policy_id: PolicyId,
    pub revision: u32,
    pub digest: RevisionDigest,
}

/// The mathematical value of a [`PolicyRevisionRef`].
#[verifier::ext_equal]
pub struct PolicyRevisionRefModel {
    pub policy_id: PolicyId,
    pub revision: u32,
    pub digest: Seq<char>,
}

impl DeepView for PolicyRevisionRef {
    type V = PolicyRevisionRefModel;

    open spec fn deep_view(&self) -> PolicyRevisionRefModel {
        PolicyRevisionRefModel {
            policy_id: self.policy_id.deep_view(),
            revision: self.revision.deep_view(),
            digest: self.digest.deep_view(),
        }
    }
}

impl Deep for PolicyRevisionRef {
    fn deep_clone(&self) -> (r: Self) {
        PolicyRevisionRef {
            policy_id: self.policy_id.deep_clone(),
            revision: self.revision.deep_clone(),
            digest: self.digest.deep_clone(),
        }
    }

    fn deep_eq(&self, other: &Self) -> (r: bool) {
        self.policy_id.deep_eq(&other.policy_id)
            && self.revision.deep_eq(&other.revision)
            && self.digest.deep_eq(&other.digest)
    }
}

/// What a revision says. Its canonical bytes are what a digest covers.
#[derive(Debug, Clone, PartialEq, Eq)]
pub struct PolicyRevisionBody {
    pub schema_version: u32,
    pub policy_id: PolicyId,
    pub revision: u32,
    pub supersedes: Option<RevisionDigest>,
    /// Injected by the publisher, so that publishing is reproducible.
    pub published_at: String,
    pub display_name: String,
    pub content: PolicyContent,
    pub pinned_fields: SortedSet<PolicyFieldId>,
}

/// The mathematical value of a [`PolicyRevisionBody`].
#[verifier::ext_equal]
pub struct PolicyRevisionBodyModel {
    pub schema_version: u32,
    pub policy_id: PolicyId,
    pub revision: u32,
    pub supersedes: Option<Seq<char>>,
    pub published_at: Seq<char>,
    pub display_name: Seq<char>,
    pub content: PolicyContentModel,
    pub pinned_fields: Set<Tag>,
}

impl DeepView for PolicyRevisionBody {
    type V = PolicyRevisionBodyModel;

    open spec fn deep_view(&self) -> PolicyRevisionBodyModel {
        PolicyRevisionBodyModel {
            schema_version: self.schema_version.deep_view(),
            policy_id: self.policy_id.deep_view(),
            revision: self.revision.deep_view(),
            supersedes: self.supersedes.deep_view(),
            published_at: self.published_at.deep_view(),
            display_name: self.display_name.deep_view(),
            content: self.content.deep_view(),
            pinned_fields: self.pinned_fields.deep_view(),
        }
    }
}

impl Deep for PolicyRevisionBody {
    fn deep_clone(&self) -> (r: Self) {
        PolicyRevisionBody {
            schema_version: self.schema_version.deep_clone(),
            policy_id: self.policy_id.deep_clone(),
            revision: self.revision.deep_clone(),
            supersedes: self.supersedes.deep_clone(),
            published_at: self.published_at.deep_clone(),
            display_name: self.display_name.deep_clone(),
            content: self.content.deep_clone(),
            pinned_fields: self.pinned_fields.deep_clone(),
        }
    }

    fn deep_eq(&self, other: &Self) -> (r: bool) {
        self.schema_version.deep_eq(&other.schema_version)
            && self.policy_id.deep_eq(&other.policy_id)
            && self.revision.deep_eq(&other.revision)
            && self.supersedes.deep_eq(&other.supersedes)
            && self.published_at.deep_eq(&other.published_at)
            && self.display_name.deep_eq(&other.display_name)
            && self.content.deep_eq(&other.content)
            && self.pinned_fields.deep_eq(&other.pinned_fields)
    }
}

/// A revision before it is published.
#[derive(Debug, Clone, PartialEq, Eq)]
pub struct PolicyDraft {
    pub policy_id: PolicyId,
    pub revision: u32,
    pub supersedes: Option<RevisionDigest>,
    pub display_name: String,
    pub content: PolicyContent,
    pub pinned_fields: SortedSet<PolicyFieldId>,
}

/// The mathematical value of a [`PolicyDraft`].
#[verifier::ext_equal]
pub struct PolicyDraftModel {
    pub policy_id: PolicyId,
    pub revision: u32,
    pub supersedes: Option<Seq<char>>,
    pub display_name: Seq<char>,
    pub content: PolicyContentModel,
    pub pinned_fields: Set<Tag>,
}

impl DeepView for PolicyDraft {
    type V = PolicyDraftModel;

    open spec fn deep_view(&self) -> PolicyDraftModel {
        PolicyDraftModel {
            policy_id: self.policy_id.deep_view(),
            revision: self.revision.deep_view(),
            supersedes: self.supersedes.deep_view(),
            display_name: self.display_name.deep_view(),
            content: self.content.deep_view(),
            pinned_fields: self.pinned_fields.deep_view(),
        }
    }
}

impl Deep for PolicyDraft {
    fn deep_clone(&self) -> (r: Self) {
        PolicyDraft {
            policy_id: self.policy_id.deep_clone(),
            revision: self.revision.deep_clone(),
            supersedes: self.supersedes.deep_clone(),
            display_name: self.display_name.deep_clone(),
            content: self.content.deep_clone(),
            pinned_fields: self.pinned_fields.deep_clone(),
        }
    }

    fn deep_eq(&self, other: &Self) -> (r: bool) {
        self.policy_id.deep_eq(&other.policy_id)
            && self.revision.deep_eq(&other.revision)
            && self.supersedes.deep_eq(&other.supersedes)
            && self.display_name.deep_eq(&other.display_name)
            && self.content.deep_eq(&other.content)
            && self.pinned_fields.deep_eq(&other.pinned_fields)
    }
}

impl JsonText for PolicyId {
    open spec fn json_text(v: PolicyId) -> Seq<char> {
        json_string(uuid_text(v.0))
    }

    fn to_json(&self) -> (r: String) {
        quote_json(self.0.to_text().as_str())
    }
}

impl JsonText for RevisionDigest {
    open spec fn json_text(v: Seq<char>) -> Seq<char> {
        json_string(v)
    }

    fn to_json(&self) -> (r: String) {
        quote_json(self.0.as_str())
    }
}

impl JsonText for PolicyRevisionBody {
    open spec fn json_text(v: PolicyRevisionBodyModel) -> Seq<char> {
        json_object(
            seq![
                json_member("schema_version"@, u32::json_text(v.schema_version)),
                json_member("policy_id"@, PolicyId::json_text(v.policy_id)),
                json_member("revision"@, u32::json_text(v.revision)),
                json_member("supersedes"@, Option::<RevisionDigest>::json_text(v.supersedes)),
                json_member("published_at"@, String::json_text(v.published_at)),
                json_member("display_name"@, String::json_text(v.display_name)),
                json_member("content"@, PolicyContent::json_text(v.content)),
                json_member("pinned_fields"@, SortedSet::<PolicyFieldId>::json_text(v.pinned_fields)),
            ],
        )
    }

    fn to_json(&self) -> (r: String) {
        let mut members: Vec<String> = Vec::new();
        members.push(write_member("schema_version", self.schema_version.to_json().as_str()));
        members.push(write_member("policy_id", self.policy_id.to_json().as_str()));
        members.push(write_member("revision", self.revision.to_json().as_str()));
        members.push(write_member("supersedes", self.supersedes.to_json().as_str()));
        members.push(write_member("published_at", self.published_at.to_json().as_str()));
        members.push(write_member("display_name", self.display_name.to_json().as_str()));
        members.push(write_member("content", self.content.to_json().as_str()));
        members.push(write_member("pinned_fields", self.pinned_fields.to_json().as_str()));
        assert(members.deep_view() =~= seq![
            json_member("schema_version"@, u32::json_text(self.deep_view().schema_version)),
            json_member("policy_id"@, PolicyId::json_text(self.deep_view().policy_id)),
            json_member("revision"@, u32::json_text(self.deep_view().revision)),
            json_member("supersedes"@, Option::<RevisionDigest>::json_text(self.deep_view().supersedes)),
            json_member("published_at"@, String::json_text(self.deep_view().published_at)),
            json_member("display_name"@, String::json_text(self.deep_view().display_name)),
            json_member("content"@, PolicyContent::json_text(self.deep_view().content)),
            json_member("pinned_fields"@, SortedSet::<PolicyFieldId>::json_text(self.deep_view().pinned_fields)),
        ]);
        write_object(&members)
    }
}

/// The bytes a digest covers: the UTF-8 form of the body's compact JSON.
pub open spec fn canonical_form(body: PolicyRevisionBodyModel) -> Seq<u8> {
    encode_utf8(PolicyRevisionBody::json_text(body))
}

/// The canonical bytes of a revision body.
pub fn canonical_bytes(body: &PolicyRevisionBody) -> (r: Vec<u8>)
    ensures
        r@ == canonical_form(body.deep_view()),
{
    body.to_json().as_str().as_bytes_vec()
}

/// The digest that identifies a revision body.
pub open spec fn body_digest(body: PolicyRevisionBodyModel) -> Seq<char> {
    digest_text(canonical_form(body))
}

pub fn digest_of(body: &PolicyRevisionBody) -> (r: RevisionDigest)
    ensures
        r.deep_view() == body_digest(body.deep_view()),
{
    let bytes = canonical_bytes(body);
    RevisionDigest(digest_string(bytes.as_slice()))
}

/// Wire form of a published revision; nothing about it has been checked.
#[derive(Debug, Clone, PartialEq, Eq)]
pub struct PolicyRevisionWire {
    pub body: PolicyRevisionBody,
    pub digest: RevisionDigest,
}

/// An immutable published revision. Its digest is always the digest of its
/// body.
#[derive(Debug, PartialEq, Eq)]
pub struct PublishedPolicyRevision {
    body: PolicyRevisionBody,
    digest: RevisionDigest,
}

/// The mathematical value of a [`PublishedPolicyRevision`].
#[verifier::ext_equal]
pub struct PublishedPolicyRevisionModel {
    pub body: PolicyRevisionBodyModel,
    pub digest: Seq<char>,
}

impl DeepView for PublishedPolicyRevision {
    type V = PublishedPolicyRevisionModel;

    closed spec fn deep_view(&self) -> PublishedPolicyRevisionModel {
        PublishedPolicyRevisionModel {
            body: self.body.deep_view(),
            digest: self.digest.deep_view(),
        }
    }
}

impl Deep for PublishedPolicyRevision {
    fn deep_clone(&self) -> (r: Self) {
        proof {
            use_type_invariant(self);
        }
        PublishedPolicyRevision { body: self.body.deep_clone(), digest: self.digest.deep_clone() }
    }

    fn deep_eq(&self, other: &Self) -> (r: bool) {
        self.body.deep_eq(&other.body) && self.digest.deep_eq(&other.digest)
    }
}

impl Clone for PublishedPolicyRevision {
    fn clone(&self) -> (r: Self)
        ensures
            r.deep_view() == self.deep_view(),
    {
        self.deep_clone()
    }
}

/// Whether a schema version is one this library reads.
pub open spec fn schema_supported(version: u32) -> bool {
    SUPPORTED_POLICY_SCHEMA_VERSIONS@.contains(version)
}

/// The pointer to a published revision.
pub open spec fn revision_reference(
    revision: PublishedPolicyRevisionModel,
) -> PolicyRevisionRefModel {
    PolicyRevisionRefModel {
        policy_id: revision.body.policy_id,
        revision: revision.body.revision,
        digest: revision.digest,
    }
}

/// Why a wire form is refused, if it is.
pub open spec fn wire_refusal(
    body: PolicyRevisionBodyModel,
    digest: Seq<char>,
) -> Option<PolicyDiagnosticModel> {
    if !schema_supported(body.schema_version) {
        Some(
            plain_diagnostic(
                DiagnosticCode::UnsupportedSchemaVersion,
                DiagnosticSeverity::Error,
                "schema_version "@ + decimal(body.schema_version as int)
                    + " is not supported (supported: "@ + number_list(
                    SUPPORTED_POLICY_SCHEMA_VERSIONS@,
                ) + ")"@,
                "republish using a supported schema_version, or upgrade this binary"@,
            ),
        )
    } else if body_digest(body) != digest {
        Some(
            plain_diagnostic(
                DiagnosticCode::DigestMismatch,
                DiagnosticSeverity::Error,
                "recomputed digest "@ + body_digest(body) + " does not match wire digest "@
                    + digest,
                "the revision body was modified after publishing; republish a fresh revision"@,
            ),
        )
    } else {
        None
    }
}

pub(crate) fn one_diagnostic(d: PolicyDiagnostic) -> (r: PolicyValidationReport)
    ensures
        r.diagnostics.deep_view() == seq![d.deep_view()],
{
    let mut diagnostics: Vec<PolicyDiagnostic> = Vec::new();
    diagnostics.push(d);
    assert(diagnostics.deep_view() =~= seq![d.deep_view()]);
    PolicyValidationReport { diagnostics }
}

fn version_supported(version: u32) -> (r: bool)
    ensures
        r == schema_supported(version),
{
    let supported = SUPPORTED_POLICY_SCHEMA_VERSIONS;
    let r = version == supported[0];
    assert(supported@.len() == 1);
    proof {
        if r {
            assert(supported@[0] == version);
        }
    }
    r
}

impl PublishedPolicyRevision {
    #[verifier::type_invariant]
    spec fn wf(&self) -> bool {
        &&& schema_supported(self.body.schema_version)
        &&& self.digest.deep_view() == body_digest(self.body.deep_view())
    }

    /// Accepts a wire form whose schema version is supported and whose digest
    /// is that of its body; names the failed check otherwise.
    pub fn try_from_wire(wire: PolicyRevisionWire) -> (r: Result<Self, PolicyValidationReport>)
        ensures
            match r {
                Ok(revision) => wire_refusal(wire.body.deep_view(), wire.digest.deep_view()) is None
                    && revision.deep_view() == (PublishedPolicyRevisionModel {
                    body: wire.body.deep_view(),
                    digest: wire.digest.deep_view(),
                }),
                Err(report) => wire_refusal(wire.body.deep_view(), wire.digest.deep_view())
                    matches Some(d) && report.diagnostics.deep_view() == seq![d],
            },
    {
        if !version_supported(wire.body.schema_version) {
            let message = "schema_version ".to_owned().concat(
                to_decimal(wire.body.schema_version as u64).as_str(),
            ).concat(" is not supported (supported: ").concat(
                to_number_list(SUPPORTED_POLICY_SCHEMA_VERSIONS.as_slice()).as_str(),
            ).concat(")");
            return Err(
                one_diagnostic(
                    PolicyDiagnostic::new(
                        DiagnosticCode::UnsupportedSchemaVersion,
                        DiagnosticSeverity::Error,
                        message,
                        "republish using a supported schema_version, or upgrade this binary",
                    ),
                ),
            );
        }
        let recomputed = digest_of(&wire.body);
        if !recomputed.deep_eq(&wire.digest) {
            let message = "recomputed digest ".to_owned().concat(recomputed.as_str()).concat(
                " does not match wire digest ",
            ).concat(wire.digest.as_str());
            return Err(
                one_diagnostic(
                    PolicyDiagnostic::new(
                        DiagnosticCode::DigestMismatch,
                        DiagnosticSeverity::Error,
                        message,
                        "the revision body was modified after publishing; republish a fresh revision",
                    ),
                ),
            );
        }
        Ok(PublishedPolicyRevision { body: wire.body, digest: wire.digest })
    }

    pub fn body(&self) -> (r: &PolicyRevisionBody)
        ensures
            r.deep_view() == self.deep_view().body,
            schema_supported(r.schema_version),
            body_digest(r.deep_view()) == self.deep_view().digest,
    {
        proof {
            use_type_invariant(self);
        }
        &self.body
    }

    pub fn digest(&self) -> (r: &RevisionDigest)
        ensures
            r.deep_view() == self.deep_view().digest,
            r.deep_view() == body_digest(self.deep_view().body),
    {
        proof {
            use_type_invariant(self);
        }
        &self.digest
    }

    pub fn reference(&self) -> (r: PolicyRevisionRef)
        ensures
            r.deep_view() == revision_reference(self.deep_view()),
    {
        PolicyRevisionRef {
            policy_id: self.body.policy_id,
            revision: self.body.revision,
            digest: self.digest.deep_clone(),
        }
    }
}

/// An error about a rule whose action class an earlier rule already has.
pub open spec fn duplicate_rule_diagnostic(class: Tag) -> PolicyDiagnosticModel {
    PolicyDiagnosticModel {
        field: Some(known_tag(6)),
        ..plain_diagnostic(
            DiagnosticCode::DuplicateActionClassRule,
            DiagnosticSeverity::Error,
            "action_class "@ + ActionClass::debug_text(class)
                + " appears more than once in enforcement.rules"@,
            "remove the duplicate rule, or merge its outcomes into one rule per action_class"@,
        )
    }
}

/// Whether an earlier rule has the action class of rule `i`.
pub open spec fn repeats_class(rules: Seq<EnforcementRuleModel>, i: int) -> bool {
    exists|j: int| 0 <= j < i && (#[trigger] rules[j]).action_class == rules[i].action_class
}

/// One error for each of the first `n` rules that repeats an action class.
pub open spec fn duplicate_diagnostics(
    rules: Seq<EnforcementRuleModel>,
    n: int,
) -> Seq<PolicyDiagnosticModel>
    decreases n,
{
    if n <= 0 {
        Seq::empty()
    } else if repeats_class(rules, n - 1) {
        duplicate_diagnostics(rules, n - 1).push(
            duplicate_rule_diagnostic(rules[n - 1].action_class),
        )
    } else {
        duplicate_diagnostics(rules, n - 1)
    }
}

pub open spec fn unsorted_rules_diagnostic() -> PolicyDiagnosticModel {
    PolicyDiagnosticModel {
        field: Some(known_tag(6)),
        ..plain_diagnostic(
            DiagnosticCode::UnsortedEnforcementRules,
            DiagnosticSeverity::Error,
            "enforcement.rules must be sorted by action_class"@,
            "sort the rules list by action_class before publishing"@,
        )
    }
}

/// An error about a pin on a field the content does not set.
pub open spec fn unset_pin_diagnostic(field: Tag) -> PolicyDiagnosticModel {
    PolicyDiagnosticModel {
        field: Some(field),
        ..plain_diagnostic(
            DiagnosticCode::PinNamesUnsetField,
            DiagnosticSeverity::Error,
            PolicyFieldId::debug_text(field)
                + " is pinned but not set by this revision's content"@,
            "either set the field's value in content, or remove it from pinned_fields"@,
        )
    }
}

/// One error for each of the first `n` pins that names a known field the
/// content does not set. A pin on an unknown field is let through.
pub open spec fn pin_diagnostics(
    content: PolicyContentModel,
    pins: Seq<Tag>,
    n: int,
) -> Seq<PolicyDiagnosticModel>
    decreases n,
{
    if n <= 0 {
        Seq::empty()
    } else if pins[n - 1].index < 9 && field_of(content, pins[n - 1]) is None {
        pin_diagnostics(content, pins, n - 1).push(unset_pin_diagnostic(pins[n - 1]))
    } else {
        pin_diagnostics(content, pins, n - 1)
    }
}

pub open spec fn name_diagnostics(display_name: Seq<char>) -> Seq<PolicyDiagnosticModel> {
    if is_blank(display_name) {
        seq![
            plain_diagnostic(
                DiagnosticCode::EmptyDisplayName,
                DiagnosticSeverity::Error,
                "display_name must not be empty"@,
                "set a non-empty, human-readable display_name"@,
            ),
        ]
    } else {
        Seq::empty()
    }
}

pub open spec fn rule_diagnostics(
    rules: Option<Seq<EnforcementRuleModel>>,
) -> Seq<PolicyDiagnosticModel> {
    match rules {
        Some(rules) => {
            let duplicates = duplicate_diagnostics(rules, rules.len() as int);
            if nondecreasing::<EnforcementRule>(rules) {
                duplicates
            } else {
                duplicates.push(unsorted_rules_diagnostic())
            }
        },
        None => Seq::empty(),
    }
}

/// Everything that keeps a draft from being published, in order.
pub open spec fn draft_diagnostics(draft: PolicyDraftModel) -> Seq<PolicyDiagnosticModel> {
    name_diagnostics(draft.display_name) + rule_diagnostics(draft.content.enforcement.rules)
        + pin_diagnostics(
        draft.content,
        listing::<PolicyFieldId>(draft.pinned_fields),
        listing::<PolicyFieldId>(draft.pinned_fields).len() as int,
    )
}

/// Content in the form it is published in.
pub open spec fn canonical_content(content: PolicyContentModel) -> PolicyContentModel {
    PolicyContentModel {
        sensors: SensorScopeModel {
            required_signals: match content.sensors.required_signals {
                Some(signals) => Some(normalized_signals(signals)),
                None => None,
            },
            ..content.sensors
        },
        enforcement: EnforcementScopeModel {
            rules: match content.enforcement.rules {
                Some(rules) => Some(stably_sorted::<EnforcementRule>(rules)),
                None => None,
            },
        },
        ..content
    }
}

/// The body a draft is published as.
pub open spec fn published_body(
    draft: PolicyDraftModel,
    published_at: Seq<char>,
) -> PolicyRevisionBodyModel {
    PolicyRevisionBodyModel {
        schema_version: POLICY_SCHEMA_VERSION,
        policy_id: draft.policy_id,
        revision: draft.revision,
        supersedes: draft.supersedes,
        published_at,
        display_name: draft.display_name,
        content: canonical_content(draft.content),
        pinned_fields: draft.pinned_fields,
    }
}

pub open spec fn supersedes_self_diagnostic() -> PolicyDiagnosticModel {
    plain_diagnostic(
        DiagnosticCode::SupersedesSelf,
        DiagnosticSeverity::Error,
        "supersedes must not name this revision's own digest"@,
        "point supersedes at the actual prior revision, or leave it unset for the first revision"@,
    )
}

/// What publishing a draft gives: the revision, or the diagnostics.
pub open spec fn publication(
    draft: PolicyDraftModel,
    published_at: Seq<char>,
) -> Result<PublishedPolicyRevisionModel, Seq<PolicyDiagnosticModel>> {
    let body = published_body(draft, published_at);
    if draft_diagnostics(draft).len() > 0 {
        Err(draft_diagnostics(draft))
    } else if draft.supersedes == Some(body_digest(body)) {
        Err(seq![supersedes_self_diagnostic()])
    } else {
        Ok(PublishedPolicyRevisionModel { body, digest: body_digest(body) })
    }
}

fn class_seen_before(rules: &Vec<EnforcementRule>, i: usize) -> (r: bool)
    requires
        i < rules.len(),
    ensures
        r == repeats_class(rules.deep_view(), i as int),
{
    let ghost all = rules.deep_view();
    let mut j: usize = 0;
    while j < i
        invariant
            j <= i < rules.len(),
            all == rules.deep_view(),
            forall|k: int|
                0 <= k < j ==> (#[trigger] all[k]).action_class != all[i as int].action_class,
        decreases i - j,
    {
        assert(all[j as int] == rules@[j as int].deep_view());
        assert(all[i as int] == rules@[i as int].deep_view());
        if rules[j].action_class.deep_eq(&rules[i].action_class) {
            return true;
        }
        j = j + 1;
    }
    false
}

fn rules_sorted(rules: &Vec<EnforcementRule>) -> (r: bool)
    ensures
        r == nondecreasing::<EnforcementRule>(rules.deep_view()),
{
    let ghost all = rules.deep_view();
    let mut j: usize = 0;
    while j < rules.len()
        invariant
            j <= rules.len(),
            all == rules.deep_view(),
            forall|a: int, b: int|
                #![trigger all[a], all[b]]
                0 <= a < b < j ==> !key_before(
                    EnforcementRule::sort_key(all[b]),
                    EnforcementRule::sort_key(all[a]),
                ),
        decreases rules.len() - j,
    {
        let mut i: usize = 0;
        while i < j
            invariant
                i <= j < rules.len(),
                all == rules.deep_view(),
                forall|a: int|
                    0 <= a < i ==> !key_before(
                        EnforcementRule::sort_key(all[j as int]),
                        EnforcementRule::sort_key(#[trigger] all[a]),
                    ),
            decreases j - i,
        {
            assert(all[i as int] == rules@[i as int].deep_view());
            assert(all[j as int] == rules@[j as int].deep_view());
            if rules[j].sorts_before(&rules[i]) {
                return false;
            }
            i = i + 1;
        }
        j = j + 1;
    }
    true
}

fn check_rules(rules: &Vec<EnforcementRule>) -> (r: Vec<PolicyDiagnostic>)
    ensures
        r.deep_view() == rule_diagnostics(Some(rules.deep_view())),
{
    let ghost all = rules.deep_view();
    let mut out: Vec<PolicyDiagnostic> = Vec::new();
    assert(out.deep_view() =~= Seq::<PolicyDiagnosticModel>::empty());
    let mut i: usize = 0;
    while i < rules.len()
        invariant
            i <= rules.len(),
            all == rules.deep_view(),
            out.deep_view() == duplicate_diagnostics(all, i as int),
        decreases rules.len() - i,
    {
        if class_seen_before(rules, i) {
            assert(all[i as int] == rules@[i as int].deep_view());
            let message = "action_class ".to_owned().concat(
                rules[i].action_class.debug_name().as_str(),
            ).concat(" appears more than once in enforcement.rules");
            let d = PolicyDiagnostic::new(
                DiagnosticCode::DuplicateActionClassRule,
                DiagnosticSeverity::Error,
                message,
                "remove the duplicate rule, or merge its outcomes into one rule per action_class",
            ).with_field(PolicyFieldId::EnforcementRules);
            let ghost before = out;
            out.push(d);
            proof {
                lemma_deep_push(before, out, d);
            }
        }
        i = i + 1;
    }
    if !rules_sorted(rules) {
        let d = PolicyDiagnostic::new(
            DiagnosticCode::UnsortedEnforcementRules,
            DiagnosticSeverity::Error,
            "enforcement.rules must be sorted by action_class".to_owned(),
            "sort the rules list by action_class before publishing",
        ).with_field(PolicyFieldId::EnforcementRules);
        let ghost before = out;
        out.push(d);
        proof {
            lemma_deep_push(before, out, d);
        }
    }
    out
}

fn check_pins(content: &PolicyContent, pins: &Vec<PolicyFieldId>) -> (r: Vec<PolicyDiagnostic>)
    ensures
        r.deep_view() == pin_diagnostics(
            content.deep_view(),
            pins.deep_view(),
            pins.deep_view().len() as int,
        ),
{
    let ghost all = pins.deep_view();
    let mut out: Vec<PolicyDiagnostic> = Vec::new();
    assert(out.deep_view() =~= Seq::<PolicyDiagnosticModel>::empty());
    let mut i: usize = 0;
    while i < pins.len()
        invariant
            i <= pins.len(),
            all == pins.deep_view(),
            out.deep_view() == pin_diagnostics(content.deep_view(), all, i as int),
        decreases pins.len() - i,
    {
        assert(all[i as int] == pins@[i as int].deep_view());
        let unknown = match &pins[i] {
            PolicyFieldId::Unrecognized(_) => true,
            _ => false,
        };
        if !unknown && get_field(content, &pins[i]).is_none() {
            let message = pins[i].debug_name().concat(
                " is pinned but not set by this revision's content",
            );
            let d = PolicyDiagnostic::new(
                DiagnosticCode::PinNamesUnsetField,
                DiagnosticSeverity::Error,
                message,
                "either set the field's value in content, or remove it from pinned_fields",
            ).with_field(pins[i].deep_clone());
            let ghost before = out;
            out.push(d);
            proof {
                lemma_deep_push(before, out, d);
            }
        }
        i = i + 1;
    }
    out
}

impl PolicyDraft {
    /// Publishes the draft. It is refused while its name is blank, its rules
    /// repeat an action class or are out of order, or it pins a field it does
    /// not set; and when it claims to supersede itself.
    pub fn publish(self, published_at: String) -> (r: Result<
        PublishedPolicyRevision,
        PolicyValidationReport,
    >)
        ensures
            match r {
                Ok(revision) => publication(self.deep_view(), published_at@) == Ok::<
                    PublishedPolicyRevisionModel,
                    Seq<PolicyDiagnosticModel>,
                >(revision.deep_view()),
                Err(report) => publication(self.deep_view(), published_at@) == Err::<
                    PublishedPolicyRevisionModel,
                    Seq<PolicyDiagnosticModel>,
                >(report.diagnostics.deep_view()),
            },
    {
        let ghost draft = self.deep_view();
        let mut diagnostics: Vec<PolicyDiagnostic> = Vec::new();
        if blank(self.display_name.as_str()) {
            diagnostics.push(
                PolicyDiagnostic::new(
                    DiagnosticCode::EmptyDisplayName,
                    DiagnosticSeverity::Error,
                    "display_name must not be empty".to_owned(),
                    "set a non-empty, human-readable display_name",
                ),
            );
        }
        assert(diagnostics.deep_view() =~= name_diagnostics(draft.display_name));
        let mut more = match &self.content.enforcement.rules {
            Some(rules) => check_rules(rules),
            None => Vec::new(),
        };
        assert(more.deep_view() =~= rule_diagnostics(draft.content.enforcement.rules));
        let ghost first = diagnostics.deep_view();
        let ghost second = more.deep_view();
        diagnostics.append(&mut more);
        assert(diagnostics.deep_view() =~= first + second);
        let mut pins = check_pins(&self.content, self.pinned_fields.as_vec());
        let ghost third = pins.deep_view();
        diagnostics.append(&mut pins);
        assert(diagnostics.deep_view() =~= first + second + third);
        if diagnostics.len() > 0 {
            return Err(PolicyValidationReport { diagnostics });
        }
        let mut content = self.content;
        content.sensors.required_signals = match content.sensors.required_signals {
            Some(signals) => Some(normalize_signal_classes(signals)),
            None => None,
        };
        content.enforcement.rules = match content.enforcement.rules {
            Some(rules) => Some(stable_sort(rules)),
            None => None,
        };
        let body = PolicyRevisionBody {
            schema_version: POLICY_SCHEMA_VERSION,
            policy_id: self.policy_id,
            revision: self.revision,
            supersedes: self.supersedes,
            published_at,
            display_name: self.display_name,
            content,
            pinned_fields: self.pinned_fields,
        };
        assert(body.deep_view() =~= published_body(draft, published_at@));
        let digest = digest_of(&body);
        let own = match &body.supersedes {
            Some(s) => s.deep_eq(&digest),
            None => false,
        };
        if own {
            return Err(
                one_diagnostic(
                    PolicyDiagnostic::new(
                        DiagnosticCode::SupersedesSelf,
                        DiagnosticSeverity::Error,
                        "supersedes must not name this revision's own digest".to_owned(),
                        "point supersedes at the actual prior revision, or leave it unset for the first revision",
                    ),
                ),
            );
        }
        assert(schema_supported(POLICY_SCHEMA_VERSION)) by {
            assert(SUPPORTED_POLICY_SCHEMA_VERSIONS@[0] == POLICY_SCHEMA_VERSION);
        }
        Ok(PublishedPolicyRevision { body, digest })
    }
}

/// Every reason publishing refuses a draft for is an error.
pub proof fn law_publication_errors_are_errors(draft: PolicyDraftModel, published_at: Seq<char>)
    ensures
        publication(draft, published_at) matches Err(diagnostics) ==> diagnostics.len() > 0
            && forall|i: int|
            0 <= i < diagnostics.len() ==> (#[trigger] diagnostics[i]).severity
                == DiagnosticSeverity::Error,
{
    match draft.content.enforcement.rules {
        Some(rules) => {
            lemma_duplicates_are_errors(rules, rules.len() as int);
        },
        None => {},
    }
    let pins = listing::<PolicyFieldId>(draft.pinned_fields);
    lemma_pins_are_errors(draft.content, pins, pins.len() as int);
}

proof fn lemma_duplicates_are_errors(rules: Seq<EnforcementRuleModel>, n: int)
    ensures
        forall|i: int|
            0 <= i < duplicate_diagnostics(rules, n).len() ==> (#[trigger] duplicate_diagnostics(
                rules,
                n,
            )[i]).severity == DiagnosticSeverity::Error,
    decreases n,
{
    if n > 0 {
        lemma_duplicates_are_errors(rules, n - 1);
    }
}

proof fn lemma_pins_are_errors(content: PolicyContentModel, pins: Seq<Tag>, n: int)
    ensures
        forall|i: int|
            0 <= i < pin_diagnostics(content, pins, n).len() ==> (#[trigger] pin_diagnostics(
                content,
                pins,
                n,
            )[i]).severity == DiagnosticSeverity::Error,
    decreases n,
{
    if n > 0 {
        lemma_pins_are_errors(content, pins, n - 1);
    }
}

/// A published revision is accepted when it is read back from its wire form.
pub proof fn law_published_revision_reads_back(draft: PolicyDraftModel, published_at: Seq<char>)
    ensures
        publication(draft, published_at) matches Ok(revision) ==> wire_refusal(
            revision.body,
            revision.digest,
        ) is None,
{
    assert(SUPPORTED_POLICY_SCHEMA_VERSIONS@[0] == POLICY_SCHEMA_VERSION);
}

impl Coded for PolicyId {
    open spec fn code(v: PolicyId) -> Seq<char> {
        Uuid::code(v.0)
    }

    open spec fn codable(v: PolicyId) -> bool {
        true
    }

    proof fn lemma_codable(value: PolicyId) {
    }

    proof fn lemma_code_ends(a: PolicyId, b: PolicyId, x: Seq<char>, y: Seq<char>) {
        Uuid::lemma_code_ends(a.0, b.0, x, y);
    }

    fn to_code(&self) -> (r: String) {
        self.0.to_code()
    }
}

impl Coded for RevisionDigest {
    open spec fn code(v: Seq<char>) -> Seq<char> {
        text_code(v)
    }

    open spec fn codable(v: Seq<char>) -> bool {
        true
    }

    proof fn lemma_codable(value: RevisionDigest) {
    }

    proof fn lemma_code_ends(a: Seq<char>, b: Seq<char>, x: Seq<char>, y: Seq<char>) {
        lemma_text_code_ends(a, b, x, y);
    }

    fn to_code(&self) -> (r: String) {
        self.0.to_code()
    }
}

impl Coded for PolicyRevisionRef {
    open spec fn code(v: PolicyRevisionRefModel) -> Seq<char> {
        PolicyId::code(v.policy_id) + (u32::code(v.revision) + RevisionDigest::code(v.digest))
    }

    open spec fn codable(v: PolicyRevisionRefModel) -> bool {
        &&& PolicyId::codable(v.policy_id)
        &&& u32::codable(v.revision)
        &&& RevisionDigest::codable(v.digest)
    }

    proof fn lemma_codable(value: PolicyRevisionRef) {
        PolicyId::lemma_codable(value.policy_id);
        u32::lemma_codable(value.revision);
        RevisionDigest::lemma_codable(value.digest);
    }

    proof fn lemma_code_ends(
        a: PolicyRevisionRefModel,
        b: PolicyRevisionRefModel,
        x: Seq<char>,
        y: Seq<char>,
    ) {
        lemma_pair_code_ends::<PolicyId>(
            a.policy_id,
            b.policy_id,
            u32::code(a.revision) + RevisionDigest::code(a.digest),
            u32::code(b.revision) + RevisionDigest::code(b.digest),
            x,
            y,
        );
        lemma_pair_code_ends::<u32>(
            a.revision,
            b.revision,
            RevisionDigest::code(a.digest),
            RevisionDigest::code(b.digest),
            x,
            y,
        );
        RevisionDigest::lemma_code_ends(a.digest, b.digest, x, y);
    }

    fn to_code(&self) -> (r: String) {
        self.policy_id.to_code().concat(
            self.revision.to_code().concat(
                self.digest.to_code().as_str(),
            ).as_str(),
        )
    }
}

impl Coded for PolicyRevisionBody {
    open spec fn code(v: PolicyRevisionBodyModel) -> Seq<char> {
        u32::code(v.schema_version) + (PolicyId::code(v.policy_id) + (u32::code(v.revision)
            + (Option::<RevisionDigest>::code(v.supersedes) + (String::code(v.published_at)
            + (String::code(v.display_name) + (PolicyContent::code(v.content)
            + SortedSet::<PolicyFieldId>::code(v.pinned_fields)))))))
    }

    open spec fn codable(v: PolicyRevisionBodyModel) -> bool {
        &&& u32::codable(v.schema_version)
        &&& PolicyId::codable(v.policy_id)
        &&& u32::codable(v.revision)
        &&& Option::<RevisionDigest>::codable(v.supersedes)
        &&& String::codable(v.published_at)
        &&& String::codable(v.display_name)
        &&& PolicyContent::codable(v.content)
        &&& SortedSet::<PolicyFieldId>::codable(v.pinned_fields)
    }

    proof fn lemma_codable(value: PolicyRevisionBody) {
        u32::lemma_codable(value.schema_version);
        PolicyId::lemma_codable(value.policy_id);
        u32::lemma_codable(value.revision);
        Option::<RevisionDigest>::lemma_codable(value.supersedes);
        String::lemma_codable(value.published_at);
        String::lemma_codable(value.display_name);
        PolicyContent::lemma_codable(value.content);
        SortedSet::<PolicyFieldId>::lemma_codable(value.pinned_fields);
    }

    proof fn lemma_code_ends(
        a: PolicyRevisionBodyModel,
        b: PolicyRevisionBodyModel,
        x: Seq<char>,
        y: Seq<char>,
    ) {
        lemma_pair_code_ends::<u32>(
            a.schema_version,
            b.schema_version,
            PolicyId::code(a.policy_id) + (u32::code(a.revision)
                + (Option::<RevisionDigest>::code(a.supersedes) + (String::code(a.published_at)
                + (String::code(a.display_name) + (PolicyContent::code(a.content)
                + SortedSet::<PolicyFieldId>::code(a.pinned_fields)))))),
            PolicyId::code(b.policy_id) + (u32::code(b.revision)
                + (Option::<RevisionDigest>::code(b.supersedes) + (String::code(b.published_at)
                + (String::code(b.display_name) + (PolicyContent::code(b.content)
                + SortedSet::<PolicyFieldId>::code(b.pinned_fields)))))),
            x,
            y,
        );
        lemma_pair_code_ends::<PolicyId>(
            a.policy_id,
            b.policy_id,
            u32::code(a.revision) + (Option::<RevisionDigest>::code(a.supersedes)
                + (String::code(a.published_at) + (String::code(a.display_name)
                + (PolicyContent::code(a.content)
                + SortedSet::<PolicyFieldId>::code(a.pinned_fields))))),
            u32::code(b.revision) + (Option::<RevisionDigest>::code(b.supersedes)
                + (String::code(b.published_at) + (String::code(b.display_name)
                + (PolicyContent::code(b.content)
                + SortedSet::<PolicyFieldId>::code(b.pinned_fields))))),
            x,
            y,
        );
        lemma_pair_code_ends::<u32>(
            a.revision,
            b.revision,
            Option::<RevisionDigest>::code(a.supersedes) + (String::code(a.published_at)
                + (String::code(a.display_name) + (PolicyContent::code(a.content)
                + SortedSet::<PolicyFieldId>::code(a.pinned_fields)))),
            Option::<RevisionDigest>::code(b.supersedes) + (String::code(b.published_at)
                + (String::code(b.display_name) + (PolicyContent::code(b.content)
                + SortedSet::<PolicyFieldId>::code(b.pinned_fields)))),
            x,
            y,
        );
        lemma_pair_code_ends::<Option<RevisionDigest>>(
            a.supersedes,
            b.supersedes,
            String::code(a.published_at) + (String::code(a.display_name)
                + (PolicyContent::code(a.content)
                + SortedSet::<PolicyFieldId>::code(a.pinned_fields))),
            String::code(b.published_at) + (String::code(b.display_name)
                + (PolicyContent::code(b.content)
                + SortedSet::<PolicyFieldId>::code(b.pinned_fields))),
            x,
            y,
        );
        lemma_pair_code_ends::<String>(
            a.published_at,
            b.published_at,
            String::code(a.display_name) + (PolicyContent::code(a.content)
                + SortedSet::<PolicyFieldId>::code(a.pinned_fields)),
            String::code(b.display_name) + (PolicyContent::code(b.content)
                + SortedSet::<PolicyFieldId>::code(b.pinned_fields)),
            x,
            y,
        );
        lemma_pair_code_ends::<String>(
            a.display_name,
            b.display_name,
            PolicyContent::code(a.content) + SortedSet::<PolicyFieldId>::code(a.pinned_fields),
            PolicyContent::code(b.content) + SortedSet::<PolicyFieldId>::code(b.pinned_fields),
            x,
            y,
        );
        lemma_pair_code_ends::<PolicyContent>(
            a.content,
            b.content,
            SortedSet::<PolicyFieldId>::code(a.pinned_fields),
            SortedSet::<PolicyFieldId>::code(b.pinned_fields),
            x,
            y,
        );
        SortedSet::<PolicyFieldId>::lemma_code_ends(a.pinned_fields, b.pinned_fields, x, y);
    }

    fn to_code(&self) -> (r: String) {
        self.schema_version.to_code().concat(
            self.policy_id.to_code().concat(
                self.revision.to_code().concat(
                    self.supersedes.to_code().concat(
                        self.published_at.to_code().concat(
                            self.display_name.to_code().concat(
                                self.content.to_code().concat(
                                    self.pinned_fields.to_code().as_str(),
                                ).as_str(),
                            ).as_str(),
                        ).as_str(),
                    ).as_str(),
                ).as_str(),
            ).as_str(),
        )
    }
}

impl Coded for PublishedPolicyRevision {
    open spec fn code(v: PublishedPolicyRevisionModel) -> Seq<char> {
        PolicyRevisionBody::code(v.body) + RevisionDigest::code(v.digest)
    }

    open spec fn codable(v: PublishedPolicyRevisionModel) -> bool {
        &&& PolicyRevisionBody::codable(v.body)
        &&& RevisionDigest::codable(v.digest)
    }

    proof fn lemma_codable(value: PublishedPolicyRevision) {
        PolicyRevisionBody::lemma_codable(value.body);
        RevisionDigest::lemma_codable(value.digest);
    }

    proof fn lemma_code_ends(
        a: PublishedPolicyRevisionModel,
        b: PublishedPolicyRevisionModel,
        x: Seq<char>,
        y: Seq<char>,
    ) {
        lemma_pair_code_ends::<PolicyRevisionBody>(
            a.body,
            b.body,
            RevisionDigest::code(a.digest),
            RevisionDigest::code(b.digest),
            x,
            y,
        );
        RevisionDigest::lemma_code_ends(a.digest, b.digest, x, y);
    }

    fn to_code(&self) -> (r: String) {
        self.body.to_code().concat(self.digest.to_code().as_str())
    }
}

} // verus!

//! Policy content: what a layer of policy can say, and the strictness order
//! of what it says.
//!
//! Every field of [`PolicyContent`] is optional. `None` means that the layer
//! does not speak to the field; it is not a value.
use vstd::prelude::*;

use crate::capabilities::SignalClass;
use crate::code::{
    known_tag_to_code, lemma_number_code_ends, lemma_pair_code_ends, lemma_tag_code_ends,
    number_code, number_to_code, tag_code, tag_to_code, Coded,
};
use crate::evidence::Verdict;
use crate::json::{
    json_member, json_object, json_string, quote_json, write_member, write_object, JsonText,
};
use crate::model::{known_tag, Deep, Tag};
use crate::order::{
    squeeze, squeezed, stable_sort, stably_sorted, tag_key, OrderKey, Ordered, SortedSet, Sortable,
};
use crate::text::{quote_debug, str_before, str_debug};

verus! {

pub const POLICY_SCHEMA_VERSION: u32 = 1;

pub const SUPPORTED_POLICY_SCHEMA_VERSIONS: [u32; 1] = [1];

/// What the agent is doing that policy has an opinion about.
#[derive(Debug, Clone, PartialEq, Eq, PartialOrd, Ord)]
pub enum ActionClass {
    CodeEdit,
    ShellCommand,
    VersionControlWrite,
    NetworkFetch,
    PackageInstall,
    CredentialAccess,
    InfrastructureMutation,
    DataEgress,
    /// A value this binary does not recognise, kept as it was written.
    Unrecognized(String),
}

impl DeepView for ActionClass {
    type V = Tag;

    open spec fn deep_view(&self) -> Tag {
        match self {
            ActionClass::CodeEdit => known_tag(0),
            ActionClass::ShellCommand => known_tag(1),
            ActionClass::VersionControlWrite => known_tag(2),
            ActionClass::NetworkFetch => known_tag(3),
            ActionClass::PackageInstall => known_tag(4),
            ActionClass::CredentialAccess => known_tag(5),
            ActionClass::InfrastructureMutation => known_tag(6),
            ActionClass::DataEgress => known_tag(7),
            ActionClass::Unrecognized(s) => Tag { index: 8, text: s@ },
        }
    }
}

impl ActionClass {
    fn index(&self) -> (r: u8)
        ensures
            r == self.deep_view().index,
    {
        match self {
            ActionClass::CodeEdit => 0,
            ActionClass::ShellCommand => 1,
            ActionClass::VersionControlWrite => 2,
            ActionClass::NetworkFetch => 3,
            ActionClass::PackageInstall => 4,
            ActionClass::CredentialAccess => 5,
            ActionClass::InfrastructureMutation => 6,
            ActionClass::DataEgress => 7,
            ActionClass::Unrecognized(_) => 8,
        }
    }

    /// The name a value is written under.
    pub open spec fn wire_text(v: Tag) -> Seq<char> {
        if v.index == 0 {
            "code_edit"@
        } else if v.index == 1 {
            "shell_command"@
        } else if v.index == 2 {
            "version_control_write"@
        } else if v.index == 3 {
            "network_fetch"@
        } else if v.index == 4 {
            "package_install"@
        } else if v.index == 5 {
            "credential_access"@
        } else if v.index == 6 {
            "infrastructure_mutation"@
        } else if v.index == 7 {
            "data_egress"@
        } else {
            v.text
        }
    }

    /// The name this value is written under.
    pub fn wire_tag(&self) -> (r: String)
        ensures
            r@ == Self::wire_text(self.deep_view()),
    {
        match self {
            ActionClass::CodeEdit => "code_edit".to_owned(),
            ActionClass::ShellCommand => "shell_command".to_owned(),
            ActionClass::VersionControlWrite => "version_control_write".to_owned(),
            ActionClass::NetworkFetch => "network_fetch".to_owned(),
            ActionClass::PackageInstall => "package_install".to_owned(),
            ActionClass::CredentialAccess => "credential_access".to_owned(),
            ActionClass::InfrastructureMutation => "infrastructure_mutation".to_owned(),
            ActionClass::DataEgress => "data_egress".to_owned(),
            ActionClass::Unrecognized(s) => s.clone(),
        }
    }

    /// How diagnostics spell a value.
    pub open spec fn debug_text(v: Tag) -> Seq<char> {
        if v.index == 0 {
            "CodeEdit"@
        } else if v.index == 1 {
            "ShellCommand"@
        } else if v.index == 2 {
            "VersionControlWrite"@
        } else if v.index == 3 {
            "NetworkFetch"@
        } else if v.index == 4 {
            "PackageInstall"@
        } else if v.index == 5 {
            "CredentialAccess"@
        } else if v.index == 6 {
            "InfrastructureMutation"@
        } else if v.index == 7 {
            "DataEgress"@
        } else {
            "Unrecognized("@ + str_debug(v.text) + ")"@
        }
    }

    /// How diagnostics spell this value.
    pub(crate) fn debug_name(&self) -> (r: String)
        ensures
            r@ == Self::debug_text(self.deep_view()),
    {
        match self {
            ActionClass::CodeEdit => "CodeEdit".to_owned(),
            ActionClass::ShellCommand => "ShellCommand".to_owned(),
            ActionClass::VersionControlWrite => "VersionControlWrite".to_owned(),
            ActionClass::NetworkFetch => "NetworkFetch".to_owned(),
            ActionClass::PackageInstall => "PackageInstall".to_owned(),
            ActionClass::CredentialAccess => "CredentialAccess".to_owned(),
            ActionClass::InfrastructureMutation => "InfrastructureMutation".to_owned(),
            ActionClass::DataEgress => "DataEgress".to_owned(),
            ActionClass::Unrecognized(s) => "Unrecognized(".to_owned().concat(quote_debug(s.as_str()).as_str()).concat(
                ")",
            ),
        }
    }
}

impl Deep for ActionClass {
    fn deep_clone(&self) -> (r: Self) {
        match self {
            ActionClass::CodeEdit => ActionClass::CodeEdit,
            ActionClass::ShellCommand => ActionClass::ShellCommand,
            ActionClass::VersionControlWrite => ActionClass::VersionControlWrite,
            ActionClass::NetworkFetch => ActionClass::NetworkFetch,
            ActionClass::PackageInstall => ActionClass::PackageInstall,
            ActionClass::CredentialAccess => ActionClass::CredentialAccess,
            ActionClass::InfrastructureMutation => ActionClass::InfrastructureMutation,
            ActionClass::DataEgress => ActionClass::DataEgress,
            ActionClass::Unrecognized(s) => ActionClass::Unrecognized(s.clone()),
        }
    }

    fn deep_eq(&self, other: &Self) -> (r: bool) {
        match (self, other) {
            (ActionClass::Unrecognized(a), ActionClass::Unrecognized(b)) => *a == *b,
            _ => self.index() == other.index(),
        }
    }
}

impl Sortable for ActionClass {
    open spec fn sort_key(v: Tag) -> OrderKey {
        tag_key(v)
    }

    fn sorts_before(&self, other: &Self) -> (r: bool) {
        match (self, other) {
            (ActionClass::Unrecognized(a), ActionClass::Unrecognized(b)) => str_before(a.as_str(), b.as_str()),
            _ => self.index() < other.index(),
        }
    }
}

impl Ordered for ActionClass {
    proof fn key_is_injective(a: Tag, b: Tag) {
    }
}

/// Risk tiers, in increasing order. Closed: an unknown tier could not be ordered.
#[derive(Debug, Clone, Copy, PartialEq, Eq, PartialOrd, Ord, Structural)]
pub enum RiskClass {
    Low,
    Elevated,
    High,
    Critical,
}

impl DeepView for RiskClass {
    type V = RiskClass;

    open spec fn deep_view(&self) -> RiskClass {
        *self
    }
}

impl Deep for RiskClass {
    fn deep_clone(&self) -> (r: Self) {
        *self
    }

    fn deep_eq(&self, other: &Self) -> (r: bool) {
        *self == *other
    }
}

impl RiskClass {
    /// Position in the order the variants are declared in.
    pub open spec fn rank(self) -> int {
        match self {
            RiskClass::Low => 0,
            RiskClass::Elevated => 1,
            RiskClass::High => 2,
            RiskClass::Critical => 3,
        }
    }

    fn rank_of(&self) -> (r: u8)
        ensures
            r == self.rank(),
    {
        match self {
            RiskClass::Low => 0,
            RiskClass::Elevated => 1,
            RiskClass::High => 2,
            RiskClass::Critical => 3,
        }
    }

    /// The name a value is written under.
    pub open spec fn wire_text(self) -> Seq<char> {
        match self {
            RiskClass::Low => "low"@,
            RiskClass::Elevated => "elevated"@,
            RiskClass::High => "high"@,
            RiskClass::Critical => "critical"@,
        }
    }

    /// The name this value is written under.
    pub fn wire_tag(&self) -> (r: String)
        ensures
            r@ == self.wire_text(),
    {
        match self {
            RiskClass::Low => "low".to_owned(),
            RiskClass::Elevated => "elevated".to_owned(),
            RiskClass::High => "high".to_owned(),
            RiskClass::Critical => "critical".to_owned(),
        }
    }
}

/// What policy does about an action, in increasing strictness.
#[derive(Debug, Clone, Copy, PartialEq, Eq, PartialOrd, Ord, Structural)]
pub enum EnforcementOutcome {
    /// Policy affirmatively permits this.
    Allow,
    /// An opinion is held back; the would-be outcome is recorded.
    ObserveOnly,
    Warn,
    Block,
}

impl DeepView for EnforcementOutcome {
    type V = EnforcementOutcome;

    open spec fn deep_view(&self) -> EnforcementOutcome {
        *self
    }
}

impl Deep for EnforcementOutcome {
    fn deep_clone(&self) -> (r: Self) {
        *self
    }

    fn deep_eq(&self, other: &Self) -> (r: bool) {
        *self == *other
    }
}

impl EnforcementOutcome {
    /// Position in the order the variants are declared in.
    pub open spec fn rank(self) -> int {
        match self {
            EnforcementOutcome::Allow => 0,
            EnforcementOutcome::ObserveOnly => 1,
            EnforcementOutcome::Warn => 2,
            EnforcementOutcome::Block => 3,
        }
    }

    fn rank_of(&self) -> (r: u8)
        ensures
            r == self.rank(),
    {
        match self {
            EnforcementOutcome::Allow => 0,
            EnforcementOutcome::ObserveOnly => 1,
            EnforcementOutcome::Warn => 2,
            EnforcementOutcome::Block => 3,
        }
    }

    /// The name a value is written under.
    pub open spec fn wire_text(self) -> Seq<char> {
        match self {
            EnforcementOutcome::Allow => "allow"@,
            EnforcementOutcome::ObserveOnly => "observe_only"@,
            EnforcementOutcome::Warn => "warn"@,
            EnforcementOutcome::Block => "block"@,
        }
    }

    /// The name this value is written under.
    pub fn wire_tag(&self) -> (r: String)
        ensures
            r@ == self.wire_text(),
    {
        match self {
            EnforcementOutcome::Allow => "allow".to_owned(),
            EnforcementOutcome::ObserveOnly => "observe_only".to_owned(),
            EnforcementOutcome::Warn => "warn".to_owned(),
            EnforcementOutcome::Block => "block".to_owned(),
        }
    }
}

impl EnforcementOutcome {
    /// The stricter of two outcomes.
    pub open spec fn stricter(a: EnforcementOutcome, b: EnforcementOutcome) -> EnforcementOutcome {
        if a.rank() > b.rank() {
            a
        } else {
            b
        }
    }

    pub fn max_of(a: EnforcementOutcome, b: EnforcementOutcome) -> (r: EnforcementOutcome)
        ensures
            r == Self::stricter(a, b),
    {
        if a.rank_of() > b.rank_of() {
            a
        } else {
            b
        }
    }

    /// Whether this outcome is at least as strict as `other`.
    pub fn at_least(&self, other: &EnforcementOutcome) -> (r: bool)
        ensures
            r == (self.rank() >= other.rank()),
    {
        self.rank_of() >= other.rank_of()
    }
}

impl RiskClass {
    /// The higher of two risk classes.
    pub open spec fn higher(a: RiskClass, b: RiskClass) -> RiskClass {
        if a.rank() > b.rank() {
            a
        } else {
            b
        }
    }

    pub fn max_of(a: RiskClass, b: RiskClass) -> (r: RiskClass)
        ensures
            r == Self::higher(a, b),
    {
        if a.rank_of() > b.rank_of() {
            a
        } else {
            b
        }
    }

    /// Whether this class is at least as high as `other`.
    pub fn at_least(&self, other: &RiskClass) -> (r: bool)
        ensures
            r == (self.rank() >= other.rank()),
    {
        self.rank_of() >= other.rank_of()
    }
}

/// One outcome for each of the five verdicts.
#[derive(Debug, Clone, Copy, PartialEq, Eq, Structural)]
pub struct VerdictOutcomes {
    pub verified: EnforcementOutcome,
    pub unverified: EnforcementOutcome,
    pub contradicted: EnforcementOutcome,
    pub review: EnforcementOutcome,
    pub unavailable: EnforcementOutcome,
}

impl DeepView for VerdictOutcomes {
    type V = VerdictOutcomes;

    open spec fn deep_view(&self) -> VerdictOutcomes {
        *self
    }
}

impl Deep for VerdictOutcomes {
    fn deep_clone(&self) -> (r: Self) {
        *self
    }

    fn deep_eq(&self, other: &Self) -> (r: bool) {
        *self == *other
    }
}

impl VerdictOutcomes {
    /// The same outcome for every verdict.
    pub fn uniform(o: EnforcementOutcome) -> (r: Self)
        ensures
            forall|v: Verdict| #[trigger] r.outcome(v) == o,
    {
        VerdictOutcomes { verified: o, unverified: o, contradicted: o, review: o, unavailable: o }
    }

    /// The outcome for one verdict.
    pub open spec fn outcome(self, v: Verdict) -> EnforcementOutcome {
        match v {
            Verdict::Verified => self.verified,
            Verdict::Unverified => self.unverified,
            Verdict::Contradicted => self.contradicted,
            Verdict::Review => self.review,
            Verdict::Unavailable => self.unavailable,
        }
    }

    pub fn for_verdict(&self, v: Verdict) -> (r: EnforcementOutcome)
        ensures
            r == self.outcome(v),
    {
        match v {
            Verdict::Verified => self.verified,
            Verdict::Unverified => self.unverified,
            Verdict::Contradicted => self.contradicted,
            Verdict::Review => self.review,
            Verdict::Unavailable => self.unavailable,
        }
    }

    /// The stricter outcome for each verdict, verdict by verdict.
    pub open spec fn met(a: Self, b: Self) -> Self {
        VerdictOutcomes {
            verified: EnforcementOutcome::stricter(a.verified, b.verified),
            unverified: EnforcementOutcome::stricter(a.unverified, b.unverified),
            contradicted: EnforcementOutcome::stricter(a.contradicted, b.contradicted),
            review: EnforcementOutcome::stricter(a.review, b.review),
            unavailable: EnforcementOutcome::stricter(a.unavailable, b.unavailable),
        }
    }

    pub fn meet(a: Self, b: Self) -> (r: Self)
        ensures
            r == Self::met(a, b),
            forall|v: Verdict| #[trigger]
                r.outcome(v) == EnforcementOutcome::stricter(a.outcome(v), b.outcome(v)),
    {
        VerdictOutcomes {
            verified: EnforcementOutcome::max_of(a.verified, b.verified),
            unverified: EnforcementOutcome::max_of(a.unverified, b.unverified),
            contradicted: EnforcementOutcome::max_of(a.contradicted, b.contradicted),
            review: EnforcementOutcome::max_of(a.review, b.review),
            unavailable: EnforcementOutcome::max_of(a.unavailable, b.unavailable),
        }
    }

    /// Whether every verdict's outcome in `a` is at least as strict as in `b`.
    pub open spec fn covers(a: Self, b: Self) -> bool {
        forall|v: Verdict| (#[trigger] a.outcome(v)).rank() >= b.outcome(v).rank()
    }

    pub fn at_least(&self, other: &Self) -> (r: bool)
        ensures
            r == Self::covers(*self, *other),
    {
        let r = self.verified.at_least(&other.verified) && self.unverified.at_least(
            &other.unverified,
        ) && self.contradicted.at_least(&other.contradicted) && self.review.at_least(&other.review)
            && self.unavailable.at_least(&other.unavailable);
        proof {
            if !r {
                let v = if self.verified.rank() < other.verified.rank() {
                    Verdict::Verified
                } else if self.unverified.rank() < other.unverified.rank() {
                    Verdict::Unverified
                } else if self.contradicted.rank() < other.contradicted.rank() {
                    Verdict::Contradicted
                } else if self.review.rank() < other.review.rank() {
                    Verdict::Review
                } else {
                    Verdict::Unavailable
                };
                assert(self.outcome(v).rank() < other.outcome(v).rank());
            }
        }
        r
    }
}

/// How much is redacted before anything leaves the device. There is no "off";
/// the variants are in increasing strictness.
#[derive(Debug, Clone, Copy, PartialEq, Eq, PartialOrd, Ord, Structural)]
pub enum RedactionProfile {
    Standard,
    Strict,
}

impl DeepView for RedactionProfile {
    type V = RedactionProfile;

    open spec fn deep_view(&self) -> RedactionProfile {
        *self
    }
}

impl Deep for RedactionProfile {
    fn deep_clone(&self) -> (r: Self) {
        *self
    }

    fn deep_eq(&self, other: &Self) -> (r: bool) {
        *self == *other
    }
}

impl RedactionProfile {
    /// Position in the order the variants are declared in.
    pub open spec fn rank(self) -> int {
        match self {
            RedactionProfile::Standard => 0,
            RedactionProfile::Strict => 1,
        }
    }

    fn rank_of(&self) -> (r: u8)
        ensures
            r == self.rank(),
    {
        match self {
            RedactionProfile::Standard => 0,
            RedactionProfile::Strict => 1,
        }
    }

    /// The name a value is written under.
    pub open spec fn wire_text(self) -> Seq<char> {
        match self {
            RedactionProfile::Standard => "standard"@,
            RedactionProfile::Strict => "strict"@,
        }
    }

    /// The name this value is written under.
    pub fn wire_tag(&self) -> (r: String)
        ensures
            r@ == self.wire_text(),
    {
        match self {
            RedactionProfile::Standard => "standard".to_owned(),
            RedactionProfile::Strict => "strict".to_owned(),
        }
    }
}

impl RedactionProfile {
    /// The stricter of two profiles.
    pub open spec fn stricter(a: RedactionProfile, b: RedactionProfile) -> RedactionProfile {
        if a.rank() > b.rank() {
            a
        } else {
            b
        }
    }

    pub fn max_of(a: RedactionProfile, b: RedactionProfile) -> (r: RedactionProfile)
        ensures
            r == Self::stricter(a, b),
    {
        if a.rank_of() > b.rank_of() {
            a
        } else {
            b
        }
    }

    pub fn at_least(&self, other: &RedactionProfile) -> (r: bool)
        ensures
            r == (self.rank() >= other.rank()),
    {
        self.rank_of() >= other.rank_of()
    }
}

/// What may leave the device. Raw payloads, prompts and source code cannot be
/// named.
#[derive(Debug, Clone, PartialEq, Eq, PartialOrd, Ord)]
pub enum EgressContentClass {
    FindingVerdicts,
    ClaimText,
    EvidenceMetadata,
    RedactedEvidencePayload,
    CapabilityDeclarations,
    /// A value this binary does not recognise, kept as it was written.
    Unrecognized(String),
}

impl DeepView for EgressContentClass {
    type V = Tag;

    open spec fn deep_view(&self) -> Tag {
        match self {
            EgressContentClass::FindingVerdicts => known_tag(0),
            EgressContentClass::ClaimText => known_tag(1),
            EgressContentClass::EvidenceMetadata => known_tag(2),
            EgressContentClass::RedactedEvidencePayload => known_tag(3),
            EgressContentClass::CapabilityDeclarations => known_tag(4),
            EgressContentClass::Unrecognized(s) => Tag { index: 5, text: s@ },
        }
    }
}

impl EgressContentClass {
    fn index(&self) -> (r: u8)
        ensures
            r == self.deep_view().index,
    {
        match self {
            EgressContentClass::FindingVerdicts => 0,
            EgressContentClass::ClaimText => 1,
            EgressContentClass::EvidenceMetadata => 2,
            EgressContentClass::RedactedEvidencePayload => 3,
            EgressContentClass::CapabilityDeclarations => 4,
            EgressContentClass::Unrecognized(_) => 5,
        }
    }

    /// The name a value is written under.
    pub open spec fn wire_text(v: Tag) -> Seq<char> {
        if v.index == 0 {
            "finding_verdicts"@
        } else if v.index == 1 {
            "claim_text"@
        } else if v.index == 2 {
            "evidence_metadata"@
        } else if v.index == 3 {
            "redacted_evidence_payload"@
        } else if v.index == 4 {
            "capability_declarations"@
        } else {
            v.text
        }
    }

    /// The name this value is written under.
    pub fn wire_tag(&self) -> (r: String)
        ensures
            r@ == Self::wire_text(self.deep_view()),
    {
        match self {
            EgressContentClass::FindingVerdicts => "finding_verdicts".to_owned(),
            EgressContentClass::ClaimText => "claim_text".to_owned(),
            EgressContentClass::EvidenceMetadata => "evidence_metadata".to_owned(),
            EgressContentClass::RedactedEvidencePayload => "redacted_evidence_payload".to_owned(),
            EgressContentClass::CapabilityDeclarations => "capability_declarations".to_owned(),
            EgressContentClass::Unrecognized(s) => s.clone(),
        }
    }
}

impl Deep for EgressContentClass {
    fn deep_clone(&self) -> (r: Self) {
        match self {
            EgressContentClass::FindingVerdicts => EgressContentClass::FindingVerdicts,
            EgressContentClass::ClaimText => EgressContentClass::ClaimText,
            EgressContentClass::EvidenceMetadata => EgressContentClass::EvidenceMetadata,
            EgressContentClass::RedactedEvidencePayload => EgressContentClass::RedactedEvidencePayload,
            EgressContentClass::CapabilityDeclarations => EgressContentClass::CapabilityDeclarations,
            EgressContentClass::Unrecognized(s) => EgressContentClass::Unrecognized(s.clone()),
        }
    }

    fn deep_eq(&self, other: &Self) -> (r: bool) {
        match (self, other) {
            (EgressContentClass::Unrecognized(a), EgressContentClass::Unrecognized(b)) => *a == *b,
            _ => self.index() == other.index(),
        }
    }
}

impl Sortable for EgressContentClass {
    open spec fn sort_key(v: Tag) -> OrderKey {
        tag_key(v)
    }

    fn sorts_before(&self, other: &Self) -> (r: bool) {
        match (self, other) {
            (EgressContentClass::Unrecognized(a), EgressContentClass::Unrecognized(b)) => str_before(a.as_str(), b.as_str()),
            _ => self.index() < other.index(),
        }
    }
}

impl Ordered for EgressContentClass {
    proof fn key_is_injective(a: Tag, b: Tag) {
    }
}

#[derive(Debug, Clone, PartialEq, Eq)]
pub struct CollectionScope {
    pub longitudinal_aggregation_allowed: Option<bool>,
}

/// The mathematical value of a [`CollectionScope`].
#[verifier::ext_equal]
pub struct CollectionScopeModel {
    pub longitudinal_aggregation_allowed: Option<bool>,
}

impl DeepView for CollectionScope {
    type V = CollectionScopeModel;

    open spec fn deep_view(&self) -> CollectionScopeModel {
        CollectionScopeModel {
            longitudinal_aggregation_allowed: self.longitudinal_aggregation_allowed.deep_view(),
        }
    }
}

impl Deep for CollectionScope {
    fn deep_clone(&self) -> (r: Self) {
        CollectionScope {
            longitudinal_aggregation_allowed: self.longitudinal_aggregation_allowed.deep_clone(),
        }
    }

    fn deep_eq(&self, other: &Self) -> (r: bool) {
        self.longitudinal_aggregation_allowed.deep_eq(&other.longitudinal_aggregation_allowed)
    }
}

#[derive(Debug, Clone, PartialEq, Eq)]
pub struct EgressScope {
    pub cloud_sync_allowed: Option<bool>,
    pub redaction_profile: Option<RedactionProfile>,
    /// A smaller set is stricter.
    pub allowed_content: Option<SortedSet<EgressContentClass>>,
}

/// The mathematical value of a [`EgressScope`].
#[verifier::ext_equal]
pub struct EgressScopeModel {
    pub cloud_sync_allowed: Option<bool>,
    pub redaction_profile: Option<RedactionProfile>,
    pub allowed_content: Option<Set<Tag>>,
}

impl DeepView for EgressScope {
    type V = EgressScopeModel;

    open spec fn deep_view(&self) -> EgressScopeModel {
        EgressScopeModel {
            cloud_sync_allowed: self.cloud_sync_allowed.deep_view(),
            redaction_profile: self.redaction_profile.deep_view(),
            allowed_content: self.allowed_content.deep_view(),
        }
    }
}

impl Deep for EgressScope {
    fn deep_clone(&self) -> (r: Self) {
        EgressScope {
            cloud_sync_allowed: self.cloud_sync_allowed.deep_clone(),
            redaction_profile: self.redaction_profile.deep_clone(),
            allowed_content: self.allowed_content.deep_clone(),
        }
    }

    fn deep_eq(&self, other: &Self) -> (r: bool) {
        self.cloud_sync_allowed.deep_eq(&other.cloud_sync_allowed)
            && self.redaction_profile.deep_eq(&other.redaction_profile)
            && self.allowed_content.deep_eq(&other.allowed_content)
    }
}

#[derive(Debug, Clone, PartialEq, Eq)]
pub struct SensorScope {
    /// By sensor name. A larger set is stricter.
    pub disabled: Option<SortedSet<String>>,
    /// A larger collection is stricter. One the device cannot expose is
    /// reported when the policy is resolved.
    pub required_signals: Option<Vec<SignalClass>>,
}

/// The mathematical value of a [`SensorScope`].
#[verifier::ext_equal]
pub struct SensorScopeModel {
    pub disabled: Option<Set<Seq<char>>>,
    pub required_signals: Option<Seq<Tag>>,
}

impl DeepView for SensorScope {
    type V = SensorScopeModel;

    open spec fn deep_view(&self) -> SensorScopeModel {
        SensorScopeModel {
            disabled: self.disabled.deep_view(),
            required_signals: self.required_signals.deep_view(),
        }
    }
}

impl Deep for SensorScope {
    fn deep_clone(&self) -> (r: Self) {
        SensorScope {
            disabled: self.disabled.deep_clone(),
            required_signals: self.required_signals.deep_clone(),
        }
    }

    fn deep_eq(&self, other: &Self) -> (r: bool) {
        self.disabled.deep_eq(&other.disabled)
            && self.required_signals.deep_eq(&other.required_signals)
    }
}

#[derive(Debug, Clone, PartialEq, Eq)]
pub struct EnforcementRule {
    pub action_class: ActionClass,
    pub risk_class: RiskClass,
    pub outcomes: VerdictOutcomes,
}

/// The mathematical value of a [`EnforcementRule`].
#[verifier::ext_equal]
pub struct EnforcementRuleModel {
    pub action_class: Tag,
    pub risk_class: RiskClass,
    pub outcomes: VerdictOutcomes,
}

impl DeepView for EnforcementRule {
    type V = EnforcementRuleModel;

    open spec fn deep_view(&self) -> EnforcementRuleModel {
        EnforcementRuleModel {
            action_class: self.action_class.deep_view(),
            risk_class: self.risk_class.deep_view(),
            outcomes: self.outcomes.deep_view(),
        }
    }
}

impl Deep for EnforcementRule {
    fn deep_clone(&self) -> (r: Self) {
        EnforcementRule {
            action_class: self.action_class.deep_clone(),
            risk_class: self.risk_class.deep_clone(),
            outcomes: self.outcomes.deep_clone(),
        }
    }

    fn deep_eq(&self, other: &Self) -> (r: bool) {
        self.action_class.deep_eq(&other.action_class)
            && self.risk_class.deep_eq(&other.risk_class)
            && self.outcomes.deep_eq(&other.outcomes)
    }
}

#[derive(Debug, Clone, PartialEq, Eq)]
pub struct EnforcementScope {
    /// Sorted by action class, one rule per class; publishing enforces both.
    pub rules: Option<Vec<EnforcementRule>>,
}

/// The mathematical value of a [`EnforcementScope`].
#[verifier::ext_equal]
pub struct EnforcementScopeModel {
    pub rules: Option<Seq<EnforcementRuleModel>>,
}

impl DeepView for EnforcementScope {
    type V = EnforcementScopeModel;

    open spec fn deep_view(&self) -> EnforcementScopeModel {
        EnforcementScopeModel {
            rules: self.rules.deep_view(),
        }
    }
}

impl Deep for EnforcementScope {
    fn deep_clone(&self) -> (r: Self) {
        EnforcementScope {
            rules: self.rules.deep_clone(),
        }
    }

    fn deep_eq(&self, other: &Self) -> (r: bool) {
        self.rules.deep_eq(&other.rules)
    }
}

/// One number of seconds for each risk class. Smaller is stricter.
#[derive(Debug, Clone, Copy, PartialEq, Eq, Structural)]
pub struct RiskClassSeconds {
    pub low: u32,
    pub elevated: u32,
    pub high: u32,
    pub critical: u32,
}

impl DeepView for RiskClassSeconds {
    type V = RiskClassSeconds;

    open spec fn deep_view(&self) -> RiskClassSeconds {
        *self
    }
}

impl Deep for RiskClassSeconds {
    fn deep_clone(&self) -> (r: Self) {
        *self
    }

    fn deep_eq(&self, other: &Self) -> (r: bool) {
        *self == *other
    }
}

/// The smaller of two numbers.
pub open spec fn smaller(a: u32, b: u32) -> u32 {
    if a < b {
        a
    } else {
        b
    }
}

pub(crate) fn min_of(a: u32, b: u32) -> (r: u32)
    ensures
        r == smaller(a, b),
{
    if a < b {
        a
    } else {
        b
    }
}

impl RiskClassSeconds {
    /// The smaller number for each risk class.
    pub open spec fn met(a: Self, b: Self) -> Self {
        RiskClassSeconds {
            low: smaller(a.low, b.low),
            elevated: smaller(a.elevated, b.elevated),
            high: smaller(a.high, b.high),
            critical: smaller(a.critical, b.critical),
        }
    }

    pub fn meet(a: Self, b: Self) -> (r: Self)
        ensures
            r == Self::met(a, b),
    {
        RiskClassSeconds {
            low: min_of(a.low, b.low),
            elevated: min_of(a.elevated, b.elevated),
            high: min_of(a.high, b.high),
            critical: min_of(a.critical, b.critical),
        }
    }

    /// The number for one risk class.
    pub open spec fn seconds(self, risk: RiskClass) -> u32 {
        match risk {
            RiskClass::Low => self.low,
            RiskClass::Elevated => self.elevated,
            RiskClass::High => self.high,
            RiskClass::Critical => self.critical,
        }
    }
}

#[derive(Debug, Clone, PartialEq, Eq)]
pub struct CacheScope {
    pub max_age_seconds_by_risk: Option<RiskClassSeconds>,
    pub offline_grace_seconds: Option<u32>,
}

/// The mathematical value of a [`CacheScope`].
#[verifier::ext_equal]
pub struct CacheScopeModel {
    pub max_age_seconds_by_risk: Option<RiskClassSeconds>,
    pub offline_grace_seconds: Option<u32>,
}

impl DeepView for CacheScope {
    type V = CacheScopeModel;

    open spec fn deep_view(&self) -> CacheScopeModel {
        CacheScopeModel {
            max_age_seconds_by_risk: self.max_age_seconds_by_risk.deep_view(),
            offline_grace_seconds: self.offline_grace_seconds.deep_view(),
        }
    }
}

impl Deep for CacheScope {
    fn deep_clone(&self) -> (r: Self) {
        CacheScope {
            max_age_seconds_by_risk: self.max_age_seconds_by_risk.deep_clone(),
            offline_grace_seconds: self.offline_grace_seconds.deep_clone(),
        }
    }

    fn deep_eq(&self, other: &Self) -> (r: bool) {
        self.max_age_seconds_by_risk.deep_eq(&other.max_age_seconds_by_risk)
            && self.offline_grace_seconds.deep_eq(&other.offline_grace_seconds)
    }
}

/// What one layer of policy says.
#[derive(Debug, Clone, PartialEq, Eq)]
pub struct PolicyContent {
    pub collection: CollectionScope,
    pub egress: EgressScope,
    pub sensors: SensorScope,
    pub enforcement: EnforcementScope,
    pub cache: CacheScope,
}

/// The mathematical value of a [`PolicyContent`].
#[verifier::ext_equal]
pub struct PolicyContentModel {
    pub collection: CollectionScopeModel,
    pub egress: EgressScopeModel,
    pub sensors: SensorScopeModel,
    pub enforcement: EnforcementScopeModel,
    pub cache: CacheScopeModel,
}

impl DeepView for PolicyContent {
    type V = PolicyContentModel;

    open spec fn deep_view(&self) -> PolicyContentModel {
        PolicyContentModel {
            collection: self.collection.deep_view(),
            egress: self.egress.deep_view(),
            sensors: self.sensors.deep_view(),
            enforcement: self.enforcement.deep_view(),
            cache: self.cache.deep_view(),
        }
    }
}

impl Deep for PolicyContent {
    fn deep_clone(&self) -> (r: Self) {
        PolicyContent {
            collection: self.collection.deep_clone(),
            egress: self.egress.deep_clone(),
            sensors: self.sensors.deep_clone(),
            enforcement: self.enforcement.deep_clone(),
            cache: self.cache.deep_clone(),
        }
    }

    fn deep_eq(&self, other: &Self) -> (r: bool) {
        self.collection.deep_eq(&other.collection)
            && self.egress.deep_eq(&other.egress)
            && self.sensors.deep_eq(&other.sensors)
            && self.enforcement.deep_eq(&other.enforcement)
            && self.cache.deep_eq(&other.cache)
    }
}

/// The content of a layer that speaks to no field.
pub open spec fn silent_content() -> PolicyContentModel {
    PolicyContentModel {
        collection: CollectionScopeModel { longitudinal_aggregation_allowed: None },
        egress: EgressScopeModel {
            cloud_sync_allowed: None,
            redaction_profile: None,
            allowed_content: None,
        },
        sensors: SensorScopeModel { disabled: None, required_signals: None },
        enforcement: EnforcementScopeModel { rules: None },
        cache: CacheScopeModel { max_age_seconds_by_risk: None, offline_grace_seconds: None },
    }
}

impl Default for PolicyContent {
    fn default() -> (r: Self)
        ensures
            r.deep_view() == silent_content(),
    {
        PolicyContent {
            collection: CollectionScope { longitudinal_aggregation_allowed: None },
            egress: EgressScope {
                cloud_sync_allowed: None,
                redaction_profile: None,
                allowed_content: None,
            },
            sensors: SensorScope { disabled: None, required_signals: None },
            enforcement: EnforcementScope { rules: None },
            cache: CacheScope { max_age_seconds_by_risk: None, offline_grace_seconds: None },
        }
    }
}

/// Rules sort by action class.
impl Sortable for EnforcementRule {
    open spec fn sort_key(v: EnforcementRuleModel) -> OrderKey {
        tag_key(v.action_class)
    }

    fn sorts_before(&self, other: &Self) -> (r: bool) {
        self.action_class.sorts_before(&other.action_class)
    }
}

/// All-concrete counterpart of [`PolicyContent`]: what consumers read.
#[derive(Debug, Clone, PartialEq, Eq)]
pub struct ResolvedValues {
    pub longitudinal_aggregation_allowed: bool,
    pub cloud_sync_allowed: bool,
    pub redaction_profile: RedactionProfile,
    pub allowed_content: SortedSet<EgressContentClass>,
    pub sensors_disabled: SortedSet<String>,
    pub sensors_required_signals: Vec<SignalClass>,
    pub enforcement_rules: Vec<EnforcementRule>,
    pub cache_max_age_seconds_by_risk: RiskClassSeconds,
    pub cache_offline_grace_seconds: u32,
}

/// The mathematical value of a [`ResolvedValues`].
#[verifier::ext_equal]
pub struct ResolvedValuesModel {
    pub longitudinal_aggregation_allowed: bool,
    pub cloud_sync_allowed: bool,
    pub redaction_profile: RedactionProfile,
    pub allowed_content: Set<Tag>,
    pub sensors_disabled: Set<Seq<char>>,
    pub sensors_required_signals: Seq<Tag>,
    pub enforcement_rules: Seq<EnforcementRuleModel>,
    pub cache_max_age_seconds_by_risk: RiskClassSeconds,
    pub cache_offline_grace_seconds: u32,
}

impl DeepView for ResolvedValues {
    type V = ResolvedValuesModel;

    open spec fn deep_view(&self) -> ResolvedValuesModel {
        ResolvedValuesModel {
            longitudinal_aggregation_allowed: self.longitudinal_aggregation_allowed.deep_view(),
            cloud_sync_allowed: self.cloud_sync_allowed.deep_view(),
            redaction_profile: self.redaction_profile.deep_view(),
            allowed_content: self.allowed_content.deep_view(),
            sensors_disabled: self.sensors_disabled.deep_view(),
            sensors_required_signals: self.sensors_required_signals.deep_view(),
            enforcement_rules: self.enforcement_rules.deep_view(),
            cache_max_age_seconds_by_risk: self.cache_max_age_seconds_by_risk.deep_view(),
            cache_offline_grace_seconds: self.cache_offline_grace_seconds.deep_view(),
        }
    }
}

impl Deep for ResolvedValues {
    fn deep_clone(&self) -> (r: Self) {
        ResolvedValues {
            longitudinal_aggregation_allowed: self.longitudinal_aggregation_allowed.deep_clone(),
            cloud_sync_allowed: self.cloud_sync_allowed.deep_clone(),
            redaction_profile: self.redaction_profile.deep_clone(),
            allowed_content: self.allowed_content.deep_clone(),
            sensors_disabled: self.sensors_disabled.deep_clone(),
            sensors_required_signals: self.sensors_required_signals.deep_clone(),
            enforcement_rules: self.enforcement_rules.deep_clone(),
            cache_max_age_seconds_by_risk: self.cache_max_age_seconds_by_risk.deep_clone(),
            cache_offline_grace_seconds: self.cache_offline_grace_seconds.deep_clone(),
        }
    }

    fn deep_eq(&self, other: &Self) -> (r: bool) {
        self.longitudinal_aggregation_allowed.deep_eq(&other.longitudinal_aggregation_allowed)
            && self.cloud_sync_allowed.deep_eq(&other.cloud_sync_allowed)
            && self.redaction_profile.deep_eq(&other.redaction_profile)
            && self.allowed_content.deep_eq(&other.allowed_content)
            && self.sensors_disabled.deep_eq(&other.sensors_disabled)
            && self.sensors_required_signals.deep_eq(&other.sensors_required_signals)
            && self.enforcement_rules.deep_eq(&other.enforcement_rules)
            && self.cache_max_age_seconds_by_risk.deep_eq(&other.cache_max_age_seconds_by_risk)
            && self.cache_offline_grace_seconds.deep_eq(&other.cache_offline_grace_seconds)
    }
}

/// Signal classes in canonical form: sorted by wire tag, without repeated
/// neighbours.
pub open spec fn normalized_signals(classes: Seq<Tag>) -> Seq<Tag> {
    squeezed(stably_sorted::<SignalClass>(classes))
}

/// Sorts signal classes by wire tag and drops repetitions, so that equal sets
/// take the same form whatever order they were written in.
pub fn normalize_signal_classes(classes: Vec<SignalClass>) -> (r: Vec<SignalClass>)
    ensures
        r.deep_view() == normalized_signals(classes.deep_view()),
{
    squeeze(stable_sort(classes))
}

/// The canonical form of two collections together.
pub fn union_signal_classes(a: Vec<SignalClass>, b: Vec<SignalClass>) -> (r: Vec<SignalClass>)
    ensures
        r.deep_view() == normalized_signals(a.deep_view() + b.deep_view()),
{
    let mut all = a;
    let mut rest = b;
    let ghost x = a.deep_view();
    let ghost y = b.deep_view();
    all.append(&mut rest);
    assert(all.deep_view() =~= x + y);
    normalize_signal_classes(all)
}

/// The concrete values every field falls back to when no layer sets it:
/// collection and egress deny, enforcement only observes.
pub open spec fn baseline_values() -> ResolvedValuesModel {
    ResolvedValuesModel {
        longitudinal_aggregation_allowed: false,
        cloud_sync_allowed: false,
        redaction_profile: RedactionProfile::Standard,
        allowed_content: Set::empty(),
        sensors_disabled: Set::empty(),
        sensors_required_signals: Seq::empty(),
        enforcement_rules: Seq::empty(),
        cache_max_age_seconds_by_risk: RiskClassSeconds {
            low: 86_400,
            elevated: 21_600,
            high: 3_600,
            critical: 900,
        },
        cache_offline_grace_seconds: 604_800,
    }
}

impl PolicyContent {
    pub fn baseline() -> (r: ResolvedValues)
        ensures
            r.deep_view() == baseline_values(),
    {
        let r = ResolvedValues {
            longitudinal_aggregation_allowed: false,
            cloud_sync_allowed: false,
            redaction_profile: RedactionProfile::Standard,
            allowed_content: SortedSet::new(),
            sensors_disabled: SortedSet::new(),
            sensors_required_signals: Vec::new(),
            enforcement_rules: Vec::new(),
            cache_max_age_seconds_by_risk: RiskClassSeconds {
                low: 86_400,
                elevated: 21_600,
                high: 3_600,
                critical: 900,
            },
            cache_offline_grace_seconds: 604_800,
        };
        assert(r.deep_view() =~= baseline_values());
        r
    }
}

/// The first rule for an action class.
pub open spec fn first_rule(rules: Seq<EnforcementRuleModel>, class: Tag) -> Option<
    EnforcementRuleModel,
>
    decreases rules.len(),
{
    if rules.len() == 0 {
        None
    } else if rules[0].action_class == class {
        Some(rules[0])
    } else {
        first_rule(rules.drop_first(), class)
    }
}

pub(crate) fn find_rule<'a>(rules: &'a Vec<EnforcementRule>, class: &ActionClass) -> (r: Option<
    &'a EnforcementRule,
>)
    ensures
        match r {
            Some(rule) => first_rule(rules.deep_view(), class.deep_view()) == Some(
                rule.deep_view(),
            ),
            None => first_rule(rules.deep_view(), class.deep_view()) is None,
        },
{
    let ghost all = rules.deep_view();
    let mut i: usize = 0;
    assert(all.skip(0) =~= all);
    while i < rules.len()
        invariant
            i <= rules.len(),
            all == rules.deep_view(),
            first_rule(all, class.deep_view()) == first_rule(
                all.skip(i as int),
                class.deep_view(),
            ),
        decreases rules.len() - i,
    {
        assert(all.skip(i as int)[0] == rules@[i as int].deep_view());
        if rules[i].action_class.deep_eq(class) {
            return Some(&rules[i]);
        }
        assert(all.skip(i as int).drop_first() =~= all.skip(i as int + 1));
        i = i + 1;
    }
    None
}

/// What enforcement does about an action class by the verdict reached: the outcome
/// of the class's rule, and observation where there is none.
pub open spec fn rule_outcome(
    rules: Seq<EnforcementRuleModel>,
    class: Tag,
    verdict: Verdict,
) -> EnforcementOutcome {
    match first_rule(rules, class) {
        Some(rule) => rule.outcomes.outcome(verdict),
        None => EnforcementOutcome::ObserveOnly,
    }
}

impl ResolvedValues {
    /// The enforcement outcome for one action class and verdict. A class
    /// without a rule reads `ObserveOnly`.
    pub fn enforcement_outcome_for(
        &self,
        action_class: &ActionClass,
        verdict: Verdict,
    ) -> (r: EnforcementOutcome)
        ensures
            r == rule_outcome(self.enforcement_rules.deep_view(), action_class.deep_view(), verdict),
    {
        match find_rule(&self.enforcement_rules, action_class) {
            Some(rule) => rule.outcomes.for_verdict(verdict),
            None => EnforcementOutcome::ObserveOnly,
        }
    }
}

impl JsonText for ActionClass {
    open spec fn json_text(v: Tag) -> Seq<char> {
        json_string(ActionClass::wire_text(v))
    }

    fn to_json(&self) -> (r: String) {
        quote_json(self.wire_tag().as_str())
    }
}

impl JsonText for EgressContentClass {
    open spec fn json_text(v: Tag) -> Seq<char> {
        json_string(EgressContentClass::wire_text(v))
    }

    fn to_json(&self) -> (r: String) {
        quote_json(self.wire_tag().as_str())
    }
}

impl JsonText for SignalClass {
    open spec fn json_text(v: Tag) -> Seq<char> {
        json_string(SignalClass::wire_text(v))
    }

    fn to_json(&self) -> (r: String) {
        quote_json(self.wire_tag().as_str())
    }
}

impl JsonText for RiskClass {
    open spec fn json_text(v: RiskClass) -> Seq<char> {
        json_string(v.wire_text())
    }

    fn to_json(&self) -> (r: String) {
        quote_json(self.wire_tag().as_str())
    }
}

impl JsonText for EnforcementOutcome {
    open spec fn json_text(v: EnforcementOutcome) -> Seq<char> {
        json_string(v.wire_text())
    }

    fn to_json(&self) -> (r: String) {
        quote_json(self.wire_tag().as_str())
    }
}

impl JsonText for RedactionProfile {
    open spec fn json_text(v: RedactionProfile) -> Seq<char> {
        json_string(v.wire_text())
    }

    fn to_json(&self) -> (r: String) {
        quote_json(self.wire_tag().as_str())
    }
}

impl JsonText for VerdictOutcomes {
    open spec fn json_text(v: VerdictOutcomes) -> Seq<char> {
        json_object(
            seq![
                json_member("verified"@, EnforcementOutcome::json_text(v.verified)),
                json_member("unverified"@, EnforcementOutcome::json_text(v.unverified)),
                json_member("contradicted"@, EnforcementOutcome::json_text(v.contradicted)),
                json_member("review"@, EnforcementOutcome::json_text(v.review)),
                json_member("unavailable"@, EnforcementOutcome::json_text(v.unavailable)),
            ],
        )
    }

    fn to_json(&self) -> (r: String) {
        let mut members: Vec<String> = Vec::new();
        members.push(write_member("verified", self.verified.to_json().as_str()));
        members.push(write_member("unverified", self.unverified.to_json().as_str()));
        members.push(write_member("contradicted", self.contradicted.to_json().as_str()));
        members.push(write_member("review", self.review.to_json().as_str()));
        members.push(write_member("unavailable", self.unavailable.to_json().as_str()));
        assert(members.deep_view() =~= seq![
            json_member("verified"@, EnforcementOutcome::json_text(self.deep_view().verified)),
            json_member("unverified"@, EnforcementOutcome::json_text(self.deep_view().unverified)),
            json_member("contradicted"@, EnforcementOutcome::json_text(self.deep_view().contradicted)),
            json_member("review"@, EnforcementOutcome::json_text(self.deep_view().review)),
            json_member("unavailable"@, EnforcementOutcome::json_text(self.deep_view().unavailable)),
        ]);
        write_object(&members)
    }
}

impl JsonText for CollectionScope {
    open spec fn json_text(v: CollectionScopeModel) -> Seq<char> {
        json_object(
            seq![
                json_member("longitudinal_aggregation_allowed"@, Option::<bool>::json_text(v.longitudinal_aggregation_allowed)),
            ],
        )
    }

    fn to_json(&self) -> (r: String) {
        let mut members: Vec<String> = Vec::new();
        members.push(write_member("longitudinal_aggregation_allowed", self.longitudinal_aggregation_allowed.to_json().as_str()));
        assert(members.deep_view() =~= seq![
            json_member("longitudinal_aggregation_allowed"@, Option::<bool>::json_text(self.deep_view().longitudinal_aggregation_allowed)),
        ]);
        write_object(&members)
    }
}

impl JsonText for EgressScope {
    open spec fn json_text(v: EgressScopeModel) -> Seq<char> {
        json_object(
            seq![
                json_member("cloud_sync_allowed"@, Option::<bool>::json_text(v.cloud_sync_allowed)),
                json_member("redaction_profile"@, Option::<RedactionProfile>::json_text(v.redaction_profile)),
                json_member("allowed_content"@, Option::<SortedSet<EgressContentClass>>::json_text(v.allowed_content)),
            ],
        )
    }

    fn to_json(&self) -> (r: String) {
        let mut members: Vec<String> = Vec::new();
        members.push(write_member("cloud_sync_allowed", self.cloud_sync_allowed.to_json().as_str()));
        members.push(write_member("redaction_profile", self.redaction_profile.to_json().as_str()));
        members.push(write_member("allowed_content", self.allowed_content.to_json().as_str()));
        assert(members.deep_view() =~= seq![
            json_member("cloud_sync_allowed"@, Option::<bool>::json_text(self.deep_view().cloud_sync_allowed)),
            json_member("redaction_profile"@, Option::<RedactionProfile>::json_text(self.deep_view().redaction_profile)),
            json_member("allowed_content"@, Option::<SortedSet<EgressContentClass>>::json_text(self.deep_view().allowed_content)),
        ]);
        write_object(&members)
    }
}

impl JsonText for SensorScope {
    open spec fn json_text(v: SensorScopeModel) -> Seq<char> {
        json_object(
            seq![
                json_member("disabled"@, Option::<SortedSet<String>>::json_text(v.disabled)),
                json_member("required_signals"@, Option::<Vec<SignalClass>>::json_text(v.required_signals)),
            ],
        )
    }

    fn to_json(&self) -> (r: String) {
        let mut members: Vec<String> = Vec::new();
        members.push(write_member("disabled", self.disabled.to_json().as_str()));
        members.push(write_member("required_signals", self.required_signals.to_json().as_str()));
        assert(members.deep_view() =~= seq![
            json_member("disabled"@, Option::<SortedSet<String>>::json_text(self.deep_view().disabled)),
            json_member("required_signals"@, Option::<Vec<SignalClass>>::json_text(self.deep_view().required_signals)),
        ]);
        write_object(&members)
    }
}

impl JsonText for EnforcementRule {
    open spec fn json_text(v: EnforcementRuleModel) -> Seq<char> {
        json_object(
            seq![
                json_member("action_class"@, ActionClass::json_text(v.action_class)),
                json_member("risk_class"@, RiskClass::json_text(v.risk_class)),
                json_member("outcomes"@, VerdictOutcomes::json_text(v.outcomes)),
            ],
        )
    }

    fn to_json(&self) -> (r: String) {
        let mut members: Vec<String> = Vec::new();
        members.push(write_member("action_class", self.action_class.to_json().as_str()));
        members.push(write_member("risk_class", self.risk_class.to_json().as_str()));
        members.push(write_member("outcomes", self.outcomes.to_json().as_str()));
        assert(members.deep_view() =~= seq![
            json_member("action_class"@, ActionClass::json_text(self.deep_view().action_class)),
            json_member("risk_class"@, RiskClass::json_text(self.deep_view().risk_class)),
            json_member("outcomes"@, VerdictOutcomes::json_text(self.deep_view().outcomes)),
        ]);
        write_object(&members)
    }
}

impl JsonText for EnforcementScope {
    open spec fn json_text(v: EnforcementScopeModel) -> Seq<char> {
        json_object(
            seq![
                json_member("rules"@, Option::<Vec<EnforcementRule>>::json_text(v.rules)),
            ],
        )
    }

    fn to_json(&self) -> (r: String) {
        let mut members: Vec<String> = Vec::new();
        members.push(write_member("rules", self.rules.to_json().as_str()));
        assert(members.deep_view() =~= seq![
            json_member("rules"@, Option::<Vec<EnforcementRule>>::json_text(self.deep_view().rules)),
        ]);
        write_object(&members)
    }
}

impl JsonText for RiskClassSeconds {
    open spec fn json_text(v: RiskClassSeconds) -> Seq<char> {
        json_object(
            seq![
                json_member("low"@, u32::json_text(v.low)),
                json_member("elevated"@, u32::json_text(v.elevated)),
                json_member("high"@, u32::json_text(v.high)),
                json_member("critical"@, u32::json_text(v.critical)),
            ],
        )
    }

    fn to_json(&self) -> (r: String) {
        let mut members: Vec<String> = Vec::new();
        members.push(write_member("low", self.low.to_json().as_str()));
        members.push(write_member("elevated", self.elevated.to_json().as_str()));
        members.push(write_member("high", self.high.to_json().as_str()));
        members.push(write_member("critical", self.critical.to_json().as_str()));
        assert(members.deep_view() =~= seq![
            json_member("low"@, u32::json_text(self.deep_view().low)),
            json_member("elevated"@, u32::json_text(self.deep_view().elevated)),
            json_member("high"@, u32::json_text(self.deep_view().high)),
            json_member("critical"@, u32::json_text(self.deep_view().critical)),
        ]);
        write_object(&members)
    }
}

impl JsonText for CacheScope {
    open spec fn json_text(v: CacheScopeModel) -> Seq<char> {
        json_object(
            seq![
                json_member("max_age_seconds_by_risk"@, Option::<RiskClassSeconds>::json_text(v.max_age_seconds_by_risk)),
                json_member("offline_grace_seconds"@, Option::<u32>::json_text(v.offline_grace_seconds)),
            ],
        )
    }

    fn to_json(&self) -> (r: String) {
        let mut members: Vec<String> = Vec::new();
        members.push(write_member("max_age_seconds_by_risk", self.max_age_seconds_by_risk.to_json().as_str()));
        members.push(write_member("offline_grace_seconds", self.offline_grace_seconds.to_json().as_str()));
        assert(members.deep_view() =~= seq![
            json_member("max_age_seconds_by_risk"@, Option::<RiskClassSeconds>::json_text(self.deep_view().max_age_seconds_by_risk)),
            json_member("offline_grace_seconds"@, Option::<u32>::json_text(self.deep_view().offline_grace_seconds)),
        ]);
        write_object(&members)
    }
}

impl JsonText for PolicyContent {
    open spec fn json_text(v: PolicyContentModel) -> Seq<char> {
        json_object(
            seq![
                json_member("collection"@, CollectionScope::json_text(v.collection)),
                json_member("egress"@, EgressScope::json_text(v.egress)),
                json_member("sensors"@, SensorScope::json_text(v.sensors)),
                json_member("enforcement"@, EnforcementScope::json_text(v.enforcement)),
                json_member("cache"@, CacheScope::json_text(v.cache)),
            ],
        )
    }

    fn to_json(&self) -> (r: String) {
        let mut members: Vec<String> = Vec::new();
        members.push(write_member("collection", self.collection.to_json().as_str()));
        members.push(write_member("egress", self.egress.to_json().as_str()));
        members.push(write_member("sensors", self.sensors.to_json().as_str()));
        members.push(write_member("enforcement", self.enforcement.to_json().as_str()));
        members.push(write_member("cache", self.cache.to_json().as_str()));
        assert(members.deep_view() =~= seq![
            json_member("collection"@, CollectionScope::json_text(self.deep_view().collection)),
            json_member("egress"@, EgressScope::json_text(self.deep_view().egress)),
            json_member("sensors"@, SensorScope::json_text(self.deep_view().sensors)),
            json_member("enforcement"@, EnforcementScope::json_text(self.deep_view().enforcement)),
            json_member("cache"@, CacheScope::json_text(self.deep_view().cache)),
        ]);
        write_object(&members)
    }
}

impl Coded for ActionClass {
    open spec fn code(v: Tag) -> Seq<char> {
        tag_code(v)
    }

    open spec fn codable(v: Tag) -> bool {
        0 <= v.index
    }

    proof fn lemma_codable(value: ActionClass) {
    }

    proof fn lemma_code_ends(a: Tag, b: Tag, x: Seq<char>, y: Seq<char>) {
        lemma_tag_code_ends(a, b, x, y);
    }

    fn to_code(&self) -> (r: String) {
        match self {
            ActionClass::Unrecognized(s) => tag_to_code(self.index(), s.as_str()),
            _ => known_tag_to_code(self.index()),
        }
    }
}

impl Coded for RiskClass {
    open spec fn code(v: RiskClass) -> Seq<char> {
        number_code(
            match v {
                RiskClass::Low => 0,
                RiskClass::Elevated => 1,
                RiskClass::High => 2,
                RiskClass::Critical => 3,
            },
        )
    }

    open spec fn codable(v: RiskClass) -> bool {
        true
    }

    proof fn lemma_codable(value: RiskClass) {
    }

    proof fn lemma_code_ends(a: RiskClass, b: RiskClass, x: Seq<char>, y: Seq<char>) {
        let number = |v: RiskClass| -> nat
            {
                match v {
                    RiskClass::Low => 0,
                    RiskClass::Elevated => 1,
                    RiskClass::High => 2,
                    RiskClass::Critical => 3,
                }
            };
        lemma_number_code_ends(number(a), number(b), x, y);
    }

    fn to_code(&self) -> (r: String) {
        let number: u128 = match self {
            RiskClass::Low => 0,
            RiskClass::Elevated => 1,
            RiskClass::High => 2,
            RiskClass::Critical => 3,
        };
        number_to_code(number)
    }
}

impl Coded for EnforcementOutcome {
    open spec fn code(v: EnforcementOutcome) -> Seq<char> {
        number_code(
            match v {
                EnforcementOutcome::Allow => 0,
                EnforcementOutcome::ObserveOnly => 1,
                EnforcementOutcome::Warn => 2,
                EnforcementOutcome::Block => 3,
            },
        )
    }

    open spec fn codable(v: EnforcementOutcome) -> bool {
        true
    }

    proof fn lemma_codable(value: EnforcementOutcome) {
    }

    proof fn lemma_code_ends(
        a: EnforcementOutcome,
        b: EnforcementOutcome,
        x: Seq<char>,
        y: Seq<char>,
    ) {
        let number = |v: EnforcementOutcome| -> nat
            {
                match v {
                    EnforcementOutcome::Allow => 0,
                    EnforcementOutcome::ObserveOnly => 1,
                    EnforcementOutcome::Warn => 2,
                    EnforcementOutcome::Block => 3,
                }
            };
        lemma_number_code_ends(number(a), number(b), x, y);
    }

    fn to_code(&self) -> (r: String) {
        let number: u128 = match self {
            EnforcementOutcome::Allow => 0,
            EnforcementOutcome::ObserveOnly => 1,
            EnforcementOutcome::Warn => 2,
            EnforcementOutcome::Block => 3,
        };
        number_to_code(number)
    }
}

impl Coded for VerdictOutcomes {
    open spec fn code(v: VerdictOutcomes) -> Seq<char> {
        EnforcementOutcome::code(v.verified) + (EnforcementOutcome::code(v.unverified)
            + (EnforcementOutcome::code(v.contradicted) + (EnforcementOutcome::code(v.review)
            + EnforcementOutcome::code(v.unavailable))))
    }

    open spec fn codable(v: VerdictOutcomes) -> bool {
        &&& EnforcementOutcome::codable(v.verified)
        &&& EnforcementOutcome::codable(v.unverified)
        &&& EnforcementOutcome::codable(v.contradicted)
        &&& EnforcementOutcome::codable(v.review)
        &&& EnforcementOutcome::codable(v.unavailable)
    }

    proof fn lemma_codable(value: VerdictOutcomes) {
        EnforcementOutcome::lemma_codable(value.verified);
        EnforcementOutcome::lemma_codable(value.unverified);
        EnforcementOutcome::lemma_codable(value.contradicted);
        EnforcementOutcome::lemma_codable(value.review);
        EnforcementOutcome::lemma_codable(value.unavailable);
    }

    proof fn lemma_code_ends(a: VerdictOutcomes, b: VerdictOutcomes, x: Seq<char>, y: Seq<char>) {
        lemma_pair_code_ends::<EnforcementOutcome>(
            a.verified,
            b.verified,
            EnforcementOutcome::code(a.unverified) + (EnforcementOutcome::code(a.contradicted)
                + (EnforcementOutcome::code(a.review) + EnforcementOutcome::code(a.unavailable))),
            EnforcementOutcome::code(b.unverified) + (EnforcementOutcome::code(b.contradicted)
                + (EnforcementOutcome::code(b.review) + EnforcementOutcome::code(b.unavailable))),
            x,
            y,
        );
        lemma_pair_code_ends::<EnforcementOutcome>(
            a.unverified,
            b.unverified,
            EnforcementOutcome::code(a.contradicted) + (EnforcementOutcome::code(a.review)
                + EnforcementOutcome::code(a.unavailable)),
            EnforcementOutcome::code(b.contradicted) + (EnforcementOutcome::code(b.review)
                + EnforcementOutcome::code(b.unavailable)),
            x,
            y,
        );
        lemma_pair_code_ends::<EnforcementOutcome>(
            a.contradicted,
            b.contradicted,
            EnforcementOutcome::code(a.review) + EnforcementOutcome::code(a.unavailable),
            EnforcementOutcome::code(b.review) + EnforcementOutcome::code(b.unavailable),
            x,
            y,
        );
        lemma_pair_code_ends::<EnforcementOutcome>(
            a.review,
            b.review,
            EnforcementOutcome::code(a.unavailable),
            EnforcementOutcome::code(b.unavailable),
            x,
            y,
        );
        EnforcementOutcome::lemma_code_ends(a.unavailable, b.unavailable, x, y);
    }

    fn to_code(&self) -> (r: String) {
        self.verified.to_code().concat(
            self.unverified.to_code().concat(
                self.contradicted.to_code().concat(
                    self.review.to_code().concat(
                        self.unavailable.to_code().as_str(),
                    ).as_str(),
                ).as_str(),
            ).as_str(),
        )
    }
}

impl Coded for RedactionProfile {
    open spec fn code(v: RedactionProfile) -> Seq<char> {
        number_code(
            match v {
                RedactionProfile::Standard => 0,
                RedactionProfile::Strict => 1,
            },
        )
    }

    open spec fn codable(v: RedactionProfile) -> bool {
        true
    }

    proof fn lemma_codable(value: RedactionProfile) {
    }

    proof fn lemma_code_ends(a: RedactionProfile, b: RedactionProfile, x: Seq<char>, y: Seq<char>) {
        let number = |v: RedactionProfile| -> nat
            {
                match v {
                    RedactionProfile::Standard => 0,
                    RedactionProfile::Strict => 1,
                }
            };
        lemma_number_code_ends(number(a), number(b), x, y);
    }

    fn to_code(&self) -> (r: String) {
        let number: u128 = match self {
            RedactionProfile::Standard => 0,
            RedactionProfile::Strict => 1,
        };
        number_to_code(number)
    }
}

impl Coded for EgressContentClass {
    open spec fn code(v: Tag) -> Seq<char> {
        tag_code(v)
    }

    open spec fn codable(v: Tag) -> bool {
        0 <= v.index
    }

    proof fn lemma_codable(value: EgressContentClass) {
    }

    proof fn lemma_code_ends(a: Tag, b: Tag, x: Seq<char>, y: Seq<char>) {
        lemma_tag_code_ends(a, b, x, y);
    }

    fn to_code(&self) -> (r: String) {
        match self {
            EgressContentClass::Unrecognized(s) => tag_to_code(self.index(), s.as_str()),
            _ => known_tag_to_code(self.index()),
        }
    }
}

impl Coded for CollectionScope {
    open spec fn code(v: CollectionScopeModel) -> Seq<char> {
        Option::<bool>::code(v.longitudinal_aggregation_allowed)
    }

    open spec fn codable(v: CollectionScopeModel) -> bool {
        Option::<bool>::codable(v.longitudinal_aggregation_allowed)
    }

    proof fn lemma_codable(value: CollectionScope) {
        Option::<bool>::lemma_codable(value.longitudinal_aggregation_allowed);
    }

    proof fn lemma_code_ends(
        a: CollectionScopeModel,
        b: CollectionScopeModel,
        x: Seq<char>,
        y: Seq<char>,
    ) {
        Option::<bool>::lemma_code_ends(a.longitudinal_aggregation_allowed, b.longitudinal_aggregation_allowed, x, y);
    }

    fn to_code(&self) -> (r: String) {
        self.longitudinal_aggregation_allowed.to_code()
    }
}

impl Coded for EgressScope {
    open spec fn code(v: EgressScopeModel) -> Seq<char> {
        Option::<bool>::code(v.cloud_sync_allowed)
            + (Option::<RedactionProfile>::code(v.redaction_profile)
            + Option::<SortedSet<EgressContentClass>>::code(v.allowed_content))
    }

    open spec fn codable(v: EgressScopeModel) -> bool {
        &&& Option::<bool>::codable(v.cloud_sync_allowed)
        &&& Option::<RedactionProfile>::codable(v.redaction_profile)
        &&& Option::<SortedSet<EgressContentClass>>::codable(v.allowed_content)
    }

    proof fn lemma_codable(value: EgressScope) {
        Option::<bool>::lemma_codable(value.cloud_sync_allowed);
        Option::<RedactionProfile>::lemma_codable(value.redaction_profile);
        Option::<SortedSet<EgressContentClass>>::lemma_codable(value.allowed_content);
    }

    proof fn lemma_code_ends(a: EgressScopeModel, b: EgressScopeModel, x: Seq<char>, y: Seq<char>) {
        lemma_pair_code_ends::<Option<bool>>(
            a.cloud_sync_allowed,
            b.cloud_sync_allowed,
            Option::<RedactionProfile>::code(a.redaction_profile)
                + Option::<SortedSet<EgressContentClass>>::code(a.allowed_content),
            Option::<RedactionProfile>::code(b.redaction_profile)
                + Option::<SortedSet<EgressContentClass>>::code(b.allowed_content),
            x,
            y,
        );
        lemma_pair_code_ends::<Option<RedactionProfile>>(
            a.redaction_profile,
            b.redaction_profile,
            Option::<SortedSet<EgressContentClass>>::code(a.allowed_content),
            Option::<SortedSet<EgressContentClass>>::code(b.allowed_content),
            x,
            y,
        );
        Option::<SortedSet<EgressContentClass>>::lemma_code_ends(a.allowed_content, b.allowed_content, x, y);
    }

    fn to_code(&self) -> (r: String) {
        self.cloud_sync_allowed.to_code().concat(
            self.redaction_profile.to_code().concat(
                self.allowed_content.to_code().as_str(),
            ).as_str(),
        )
    }
}

impl Coded for SensorScope {
    open spec fn code(v: SensorScopeModel) -> Seq<char> {
        Option::<SortedSet<String>>::code(v.disabled)
            + Option::<Vec<SignalClass>>::code(v.required_signals)
    }

    open spec fn codable(v: SensorScopeModel) -> bool {
        &&& Option::<SortedSet<String>>::codable(v.disabled)
        &&& Option::<Vec<SignalClass>>::codable(v.required_signals)
    }

    proof fn lemma_codable(value: SensorScope) {
        Option::<SortedSet<String>>::lemma_codable(value.disabled);
        Option::<Vec<SignalClass>>::lemma_codable(value.required_signals);
    }

    proof fn lemma_code_ends(a: SensorScopeModel, b: SensorScopeModel, x: Seq<char>, y: Seq<char>) {
        lemma_pair_code_ends::<Option<SortedSet<String>>>(
            a.disabled,
            b.disabled,
            Option::<Vec<SignalClass>>::code(a.required_signals),
            Option::<Vec<SignalClass>>::code(b.required_signals),
            x,
            y,
        );
        Option::<Vec<SignalClass>>::lemma_code_ends(a.required_signals, b.required_signals, x, y);
    }

    fn to_code(&self) -> (r: String) {
        self.disabled.to_code().concat(self.required_signals.to_code().as_str())
    }
}

impl Coded for EnforcementRule {
    open spec fn code(v: EnforcementRuleModel) -> Seq<char> {
        ActionClass::code(v.action_class) + (RiskClass::code(v.risk_class)
            + VerdictOutcomes::code(v.outcomes))
    }

    open spec fn codable(v: EnforcementRuleModel) -> bool {
        &&& ActionClass::codable(v.action_class)
        &&& RiskClass::codable(v.risk_class)
        &&& VerdictOutcomes::codable(v.outcomes)
    }

    proof fn lemma_codable(value: EnforcementRule) {
        ActionClass::lemma_codable(value.action_class);
        RiskClass::lemma_codable(value.risk_class);
        VerdictOutcomes::lemma_codable(value.outcomes);
    }

    proof fn lemma_code_ends(
        a: EnforcementRuleModel,
        b: EnforcementRuleModel,
        x: Seq<char>,
        y: Seq<char>,
    ) {
        lemma_pair_code_ends::<ActionClass>(
            a.action_class,
            b.action_class,
            RiskClass::code(a.risk_class) + VerdictOutcomes::code(a.outcomes),
            RiskClass::code(b.risk_class) + VerdictOutcomes::code(b.outcomes),
            x,
            y,
        );
        lemma_pair_code_ends::<RiskClass>(
            a.risk_class,
            b.risk_class,
            VerdictOutcomes::code(a.outcomes),
            VerdictOutcomes::code(b.outcomes),
            x,
            y,
        );
        VerdictOutcomes::lemma_code_ends(a.outcomes, b.outcomes, x, y);
    }

    fn to_code(&self) -> (r: String) {
        self.action_class.to_code().concat(
            self.risk_class.to_code().concat(
                self.outcomes.to_code().as_str(),
            ).as_str(),
        )
    }
}

impl Coded for EnforcementScope {
    open spec fn code(v: EnforcementScopeModel) -> Seq<char> {
        Option::<Vec<EnforcementRule>>::code(v.rules)
    }

    open spec fn codable(v: EnforcementScopeModel) -> bool {
        Option::<Vec<EnforcementRule>>::codable(v.rules)
    }

    proof fn lemma_codable(value: EnforcementScope) {
        Option::<Vec<EnforcementRule>>::lemma_codable(value.rules);
    }

    proof fn lemma_code_ends(
        a: EnforcementScopeModel,
        b: EnforcementScopeModel,
        x: Seq<char>,
        y: Seq<char>,
    ) {
        Option::<Vec<EnforcementRule>>::lemma_code_ends(a.rules, b.rules, x, y);
    }

    fn to_code(&self) -> (r: String) {
        self.rules.to_code()
    }
}

impl Coded for RiskClassSeconds {
    open spec fn code(v: RiskClassSeconds) -> Seq<char> {
        u32::code(v.low) + (u32::code(v.elevated) + (u32::code(v.high) + u32::code(v.critical)))
    }

    open spec fn codable(v: RiskClassSeconds) -> bool {
        &&& u32::codable(v.low)
        &&& u32::codable(v.elevated)
        &&& u32::codable(v.high)
        &&& u32::codable(v.critical)
    }

    proof fn lemma_codable(value: RiskClassSeconds) {
        u32::lemma_codable(value.low);
        u32::lemma_codable(value.elevated);
        u32::lemma_codable(value.high);
        u32::lemma_codable(value.critical);
    }

    proof fn lemma_code_ends(a: RiskClassSeconds, b: RiskClassSeconds, x: Seq<char>, y: Seq<char>) {
        lemma_pair_code_ends::<u32>(
            a.low,
            b.low,
            u32::code(a.elevated) + (u32::code(a.high) + u32::code(a.critical)),
            u32::code(b.elevated) + (u32::code(b.high) + u32::code(b.critical)),
            x,
            y,
        );
        lemma_pair_code_ends::<u32>(
            a.elevated,
            b.elevated,
            u32::code(a.high) + u32::code(a.critical),
            u32::code(b.high) + u32::code(b.critical),
            x,
            y,
        );
        lemma_pair_code_ends::<u32>(
            a.high,
            b.high,
            u32::code(a.critical),
            u32::code(b.critical),
            x,
            y,
        );
        u32::lemma_code_ends(a.critical, b.critical, x, y);
    }

    fn to_code(&self) -> (r: String) {
        self.low.to_code().concat(
            self.elevated.to_code().concat(
                self.high.to_code().concat(
                    self.critical.to_code().as_str(),
                ).as_str(),
            ).as_str(),
        )
    }
}

impl Coded for CacheScope {
    open spec fn code(v: CacheScopeModel) -> Seq<char> {
        Option::<RiskClassSeconds>::code(v.max_age_seconds_by_risk)
            + Option::<u32>::code(v.offline_grace_seconds)
    }

    open spec fn codable(v: CacheScopeModel) -> bool {
        &&& Option::<RiskClassSeconds>::codable(v.max_age_seconds_by_risk)
        &&& Option::<u32>::codable(v.offline_grace_seconds)
    }

    proof fn lemma_codable(value: CacheScope) {
        Option::<RiskClassSeconds>::lemma_codable(value.max_age_seconds_by_risk);
        Option::<u32>::lemma_codable(value.offline_grace_seconds);
    }

    proof fn lemma_code_ends(a: CacheScopeModel, b: CacheScopeModel, x: Seq<char>, y: Seq<char>) {
        lemma_pair_code_ends::<Option<RiskClassSeconds>>(
            a.max_age_seconds_by_risk,
            b.max_age_seconds_by_risk,
            Option::<u32>::code(a.offline_grace_seconds),
            Option::<u32>::code(b.offline_grace_seconds),
            x,
            y,
        );
        Option::<u32>::lemma_code_ends(a.offline_grace_seconds, b.offline_grace_seconds, x, y);
    }

    fn to_code(&self) -> (r: String) {
        self.max_age_seconds_by_risk.to_code().concat(self.offline_grace_seconds.to_code().as_str())
    }
}

impl Coded for PolicyContent {
    open spec fn code(v: PolicyContentModel) -> Seq<char> {
        CollectionScope::code(v.collection) + (EgressScope::code(v.egress)
            + (SensorScope::code(v.sensors) + (EnforcementScope::code(v.enforcement)
            + CacheScope::code(v.cache))))
    }

    open spec fn codable(v: PolicyContentModel) -> bool {
        &&& CollectionScope::codable(v.collection)
        &&& EgressScope::codable(v.egress)
        &&& SensorScope::codable(v.sensors)
        &&& EnforcementScope::codable(v.enforcement)
        &&& CacheScope::codable(v.cache)
    }

    proof fn lemma_codable(value: PolicyContent) {
        CollectionScope::lemma_codable(value.collection);
        EgressScope::lemma_codable(value.egress);
        SensorScope::lemma_codable(value.sensors);
        EnforcementScope::lemma_codable(value.enforcement);
        CacheScope::lemma_codable(value.cache);
    }

    proof fn lemma_code_ends(
        a: PolicyContentModel,
        b: PolicyContentModel,
        x: Seq<char>,
        y: Seq<char>,
    ) {
        lemma_pair_code_ends::<CollectionScope>(
            a.collection,
            b.collection,
            EgressScope::code(a.egress) + (SensorScope::code(a.sensors)
                + (EnforcementScope::code(a.enforcement) + CacheScope::code(a.cache))),
            EgressScope::code(b.egress) + (SensorScope::code(b.sensors)
                + (EnforcementScope::code(b.enforcement) + CacheScope::code(b.cache))),
            x,
            y,
        );
        lemma_pair_code_ends::<EgressScope>(
            a.egress,
            b.egress,
            SensorScope::code(a.sensors) + (EnforcementScope::code(a.enforcement)
                + CacheScope::code(a.cache)),
            SensorScope::code(b.sensors) + (EnforcementScope::code(b.enforcement)
                + CacheScope::code(b.cache)),
            x,
            y,
        );
        lemma_pair_code_ends::<SensorScope>(
            a.sensors,
            b.sensors,
            EnforcementScope::code(a.enforcement) + CacheScope::code(a.cache),
            EnforcementScope::code(b.enforcement) + CacheScope::code(b.cache),
            x,
            y,
        );
        lemma_pair_code_ends::<EnforcementScope>(
            a.enforcement,
            b.enforcement,
            CacheScope::code(a.cache),
            CacheScope::code(b.cache),
            x,
            y,
        );
        CacheScope::lemma_code_ends(a.cache, b.cache, x, y);
    }

    fn to_code(&self) -> (r: String) {
        self.collection.to_code().concat(
            self.egress.to_code().concat(
                self.sensors.to_code().concat(
                    self.enforcement.to_code().concat(
                        self.cache.to_code().as_str(),
                    ).as_str(),
                ).as_str(),
            ).as_str(),
        )
    }
}

} // verus!

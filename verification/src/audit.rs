//! Audit events and references to them.
use vstd::prelude::*;

use crate::json::{Json, JsonModel};
use crate::model::{known_tag, Deep, Tag};
use crate::order::SortedMap;
use crate::text::{chars_of, decimal, number_list, to_decimal, to_number_list};

verus! {

/// The version a new event carries.
pub const AUDIT_SCHEMA_VERSION: u32 = 1;

/// The event versions this library reads.
pub const SUPPORTED_AUDIT_SCHEMA_VERSIONS: [u32; 1] = [1];

/// Who performed an audited action.
#[derive(Debug, Clone, PartialEq, Eq)]
pub enum AuditActor {
    Device { actor_id: String },
    User { actor_id: String },
    /// A credential nobody uses interactively.
    ServiceToken { actor_id: String },
    /// The system itself, without a caller.
    System,
    /// A kind this binary does not know.
    Unrecognized,
}

/// What an audited action was performed on.
#[derive(Debug, Clone, PartialEq, Eq)]
pub enum AuditTarget {
    PolicyBundle { target_id: String },
    RevocationEntry { target_id: String },
    RoleAssignment { target_id: String },
    Permission { target_id: String },
    Device { target_id: String },
    Evidence { target_id: String },
    Organization { target_id: String },
    /// A report, by its own digest.
    ComplianceReport { target_id: String },
    /// A kind this binary does not know.
    Unrecognized,
}

/// What happened.
#[derive(Debug, Clone, PartialEq, Eq)]
pub enum AuditAction {
    PermissionCheck,
    BreakGlassActivated,
    PolicyBundleActivated,
    PolicyRevocationIngested,
    RoleAssignmentChanged,
    EvidencePurged,
    ComplianceReportGenerated,
    /// A value this binary does not recognise, kept as it was written.
    Unrecognized(String),
}

impl DeepView for AuditAction {
    type V = Tag;

    open spec fn deep_view(&self) -> Tag {
        match self {
            AuditAction::PermissionCheck => known_tag(0),
            AuditAction::BreakGlassActivated => known_tag(1),
            AuditAction::PolicyBundleActivated => known_tag(2),
            AuditAction::PolicyRevocationIngested => known_tag(3),
            AuditAction::RoleAssignmentChanged => known_tag(4),
            AuditAction::EvidencePurged => known_tag(5),
            AuditAction::ComplianceReportGenerated => known_tag(6),
            AuditAction::Unrecognized(s) => Tag { index: 7, text: s@ },
        }
    }
}

impl AuditAction {
    fn index(&self) -> (r: u8)
        ensures
            r == self.deep_view().index,
    {
        match self {
            AuditAction::PermissionCheck => 0,
            AuditAction::BreakGlassActivated => 1,
            AuditAction::PolicyBundleActivated => 2,
            AuditAction::PolicyRevocationIngested => 3,
            AuditAction::RoleAssignmentChanged => 4,
            AuditAction::EvidencePurged => 5,
            AuditAction::ComplianceReportGenerated => 6,
            AuditAction::Unrecognized(_) => 7,
        }
    }

    /// The name a value is written under.
    pub open spec fn wire_text(v: Tag) -> Seq<char> {
        if v.index == 0 {
            "permission_check"@
        } else if v.index == 1 {
            "break_glass_activated"@
        } else if v.index == 2 {
            "policy_bundle_activated"@
        } else if v.index == 3 {
            "policy_revocation_ingested"@
        } else if v.index == 4 {
            "role_assignment_changed"@
        } else if v.index == 5 {
            "evidence_purged"@
        } else if v.index == 6 {
            "compliance_report_generated"@
        } else {
            v.text
        }
    }

    /// The name this value is written under.
    pub fn wire_tag(&self) -> (r: String)
        ensures
            r@ == Self::wire_text(self.deep_view()),
    {
        match self {
            AuditAction::PermissionCheck => "permission_check".to_owned(),
            AuditAction::BreakGlassActivated => "break_glass_activated".to_owned(),
            AuditAction::PolicyBundleActivated => "policy_bundle_activated".to_owned(),
            AuditAction::PolicyRevocationIngested => "policy_revocation_ingested".to_owned(),
            AuditAction::RoleAssignmentChanged => "role_assignment_changed".to_owned(),
            AuditAction::EvidencePurged => "evidence_purged".to_owned(),
            AuditAction::ComplianceReportGenerated => "compliance_report_generated".to_owned(),
            AuditAction::Unrecognized(s) => s.clone(),
        }
    }
}

impl Deep for AuditAction {
    fn deep_clone(&self) -> (r: Self) {
        match self {
            AuditAction::PermissionCheck => AuditAction::PermissionCheck,
            AuditAction::BreakGlassActivated => AuditAction::BreakGlassActivated,
            AuditAction::PolicyBundleActivated => AuditAction::PolicyBundleActivated,
            AuditAction::PolicyRevocationIngested => AuditAction::PolicyRevocationIngested,
            AuditAction::RoleAssignmentChanged => AuditAction::RoleAssignmentChanged,
            AuditAction::EvidencePurged => AuditAction::EvidencePurged,
            AuditAction::ComplianceReportGenerated => AuditAction::ComplianceReportGenerated,
            AuditAction::Unrecognized(s) => AuditAction::Unrecognized(s.clone()),
        }
    }

    fn deep_eq(&self, other: &Self) -> (r: bool) {
        match (self, other) {
            (AuditAction::Unrecognized(a), AuditAction::Unrecognized(b)) => *a == *b,
            _ => self.index() == other.index(),
        }
    }
}

/// What came of an audited action.
#[derive(Debug, Clone, PartialEq, Eq)]
pub enum AuditOutcome {
    Granted,
    Denied,
    GrantedViaBreakGlass,
    BreakGlassActivated,
    Revoked,
    Expired,
    /// A value this binary does not recognise, kept as it was written.
    Unrecognized(String),
}

impl DeepView for AuditOutcome {
    type V = Tag;

    open spec fn deep_view(&self) -> Tag {
        match self {
            AuditOutcome::Granted => known_tag(0),
            AuditOutcome::Denied => known_tag(1),
            AuditOutcome::GrantedViaBreakGlass => known_tag(2),
            AuditOutcome::BreakGlassActivated => known_tag(3),
            AuditOutcome::Revoked => known_tag(4),
            AuditOutcome::Expired => known_tag(5),
            AuditOutcome::Unrecognized(s) => Tag { index: 6, text: s@ },
        }
    }
}

impl AuditOutcome {
    fn index(&self) -> (r: u8)
        ensures
            r == self.deep_view().index,
    {
        match self {
            AuditOutcome::Granted => 0,
            AuditOutcome::Denied => 1,
            AuditOutcome::GrantedViaBreakGlass => 2,
            AuditOutcome::BreakGlassActivated => 3,
            AuditOutcome::Revoked => 4,
            AuditOutcome::Expired => 5,
            AuditOutcome::Unrecognized(_) => 6,
        }
    }

    /// The name a value is written under.
    pub open spec fn wire_text(v: Tag) -> Seq<char> {
        if v.index == 0 {
            "granted"@
        } else if v.index == 1 {
            "denied"@
        } else if v.index == 2 {
            "granted_via_break_glass"@
        } else if v.index == 3 {
            "break_glass_activated"@
        } else if v.index == 4 {
            "revoked"@
        } else if v.index == 5 {
            "expired"@
        } else {
            v.text
        }
    }

    /// The name this value is written under.
    pub fn wire_tag(&self) -> (r: String)
        ensures
            r@ == Self::wire_text(self.deep_view()),
    {
        match self {
            AuditOutcome::Granted => "granted".to_owned(),
            AuditOutcome::Denied => "denied".to_owned(),
            AuditOutcome::GrantedViaBreakGlass => "granted_via_break_glass".to_owned(),
            AuditOutcome::BreakGlassActivated => "break_glass_activated".to_owned(),
            AuditOutcome::Revoked => "revoked".to_owned(),
            AuditOutcome::Expired => "expired".to_owned(),
            AuditOutcome::Unrecognized(s) => s.clone(),
        }
    }
}

impl Deep for AuditOutcome {
    fn deep_clone(&self) -> (r: Self) {
        match self {
            AuditOutcome::Granted => AuditOutcome::Granted,
            AuditOutcome::Denied => AuditOutcome::Denied,
            AuditOutcome::GrantedViaBreakGlass => AuditOutcome::GrantedViaBreakGlass,
            AuditOutcome::BreakGlassActivated => AuditOutcome::BreakGlassActivated,
            AuditOutcome::Revoked => AuditOutcome::Revoked,
            AuditOutcome::Expired => AuditOutcome::Expired,
            AuditOutcome::Unrecognized(s) => AuditOutcome::Unrecognized(s.clone()),
        }
    }

    fn deep_eq(&self, other: &Self) -> (r: bool) {
        match (self, other) {
            (AuditOutcome::Unrecognized(a), AuditOutcome::Unrecognized(b)) => *a == *b,
            _ => self.index() == other.index(),
        }
    }
}

/// How sensitive an event's own content is.
#[derive(Debug, Clone, PartialEq, Eq)]
pub enum AuditExportClass {
    /// Structure only.
    Metadata,
    /// A summary derived from evidence.
    FindingSummary,
    /// References to evidence that may be sensitive.
    SensitiveEvidenceRef,
    /// Raw content.
    RawContent,
    /// A value this binary does not recognise, kept as it was written.
    Unrecognized(String),
}

impl DeepView for AuditExportClass {
    type V = Tag;

    open spec fn deep_view(&self) -> Tag {
        match self {
            AuditExportClass::Metadata => known_tag(0),
            AuditExportClass::FindingSummary => known_tag(1),
            AuditExportClass::SensitiveEvidenceRef => known_tag(2),
            AuditExportClass::RawContent => known_tag(3),
            AuditExportClass::Unrecognized(s) => Tag { index: 4, text: s@ },
        }
    }
}

impl AuditExportClass {
    fn index(&self) -> (r: u8)
        ensures
            r == self.deep_view().index,
    {
        match self {
            AuditExportClass::Metadata => 0,
            AuditExportClass::FindingSummary => 1,
            AuditExportClass::SensitiveEvidenceRef => 2,
            AuditExportClass::RawContent => 3,
            AuditExportClass::Unrecognized(_) => 4,
        }
    }

    /// The name a value is written under.
    pub open spec fn wire_text(v: Tag) -> Seq<char> {
        if v.index == 0 {
            "metadata"@
        } else if v.index == 1 {
            "finding_summary"@
        } else if v.index == 2 {
            "sensitive_evidence_ref"@
        } else if v.index == 3 {
            "raw_content"@
        } else {
            v.text
        }
    }

    /// The name this value is written under.
    pub fn wire_tag(&self) -> (r: String)
        ensures
            r@ == Self::wire_text(self.deep_view()),
    {
        match self {
            AuditExportClass::Metadata => "metadata".to_owned(),
            AuditExportClass::FindingSummary => "finding_summary".to_owned(),
            AuditExportClass::SensitiveEvidenceRef => "sensitive_evidence_ref".to_owned(),
            AuditExportClass::RawContent => "raw_content".to_owned(),
            AuditExportClass::Unrecognized(s) => s.clone(),
        }
    }
}

impl Deep for AuditExportClass {
    fn deep_clone(&self) -> (r: Self) {
        match self {
            AuditExportClass::Metadata => AuditExportClass::Metadata,
            AuditExportClass::FindingSummary => AuditExportClass::FindingSummary,
            AuditExportClass::SensitiveEvidenceRef => AuditExportClass::SensitiveEvidenceRef,
            AuditExportClass::RawContent => AuditExportClass::RawContent,
            AuditExportClass::Unrecognized(s) => AuditExportClass::Unrecognized(s.clone()),
        }
    }

    fn deep_eq(&self, other: &Self) -> (r: bool) {
        match (self, other) {
            (AuditExportClass::Unrecognized(a), AuditExportClass::Unrecognized(b)) => *a == *b,
            _ => self.index() == other.index(),
        }
    }
}

impl AuditExportClass {
    /// Whether events of this class may be exported, as far as the class
    /// alone decides. A class this binary does not know is as restricted as
    /// the most restricted one.
    pub fn is_exportable(&self) -> (r: bool)
        ensures
            r == (self is Metadata || self is FindingSummary),
    {
        match self {
            AuditExportClass::Metadata => true,
            AuditExportClass::FindingSummary => true,
            AuditExportClass::SensitiveEvidenceRef => false,
            AuditExportClass::RawContent => false,
            AuditExportClass::Unrecognized(_) => false,
        }
    }
}

/// One audit event. Members of the wire form that are not named here are kept
/// in `unknown`.
#[derive(Debug, Clone, PartialEq, Eq)]
pub struct AuditEvent {
    pub schema_version: u32,
    pub event_id: String,
    /// When it happened, in RFC 3339.
    pub occurred_at: String,
    pub actor: AuditActor,
    pub action: AuditAction,
    pub target: AuditTarget,
    pub outcome: AuditOutcome,
    pub export_class: AuditExportClass,
    pub correlation_id: Option<String>,
    pub attributes: Json,
    pub unknown: SortedMap<String, Json>,
}

/// The wire form of an event; its version has not been checked.
#[derive(Debug, Clone, PartialEq, Eq)]
pub struct AuditEventWire {
    pub schema_version: u32,
    pub event_id: String,
    pub occurred_at: String,
    pub actor: AuditActor,
    pub action: AuditAction,
    pub target: AuditTarget,
    pub outcome: AuditOutcome,
    pub export_class: AuditExportClass,
    pub correlation_id: Option<String>,
    pub attributes: Option<Json>,
    pub unknown: SortedMap<String, Json>,
}

/// Why an event is refused.
#[derive(Debug, Clone, PartialEq, Eq)]
pub enum AuditEventRejection {
    UnsupportedSchemaVersion { found: u32, supported: Vec<u32> },
}

/// What a rejection says.
pub open spec fn rejection_text(e: AuditEventRejection) -> Seq<char> {
    match e {
        AuditEventRejection::UnsupportedSchemaVersion { found, supported } => {
            "audit_schema_version "@ + decimal(found as int) + " is not supported (supported: "@
                + number_list(supported@) + ")"@
        },
    }
}

impl AuditEventRejection {
    /// What this rejection says.
    pub fn message(&self) -> (r: String)
        ensures
            r@ == rejection_text(*self),
    {
        match self {
            AuditEventRejection::UnsupportedSchemaVersion { found, supported } => {
                "audit_schema_version ".to_owned().concat(
                    to_decimal(*found as u64).as_str(),
                ).concat(" is not supported (supported: ").concat(
                    to_number_list(supported.as_slice()).as_str(),
                ).concat(")")
            },
        }
    }
}

/// Whether an event version is one this library reads.
pub open spec fn audit_schema_supported(version: u32) -> bool {
    SUPPORTED_AUDIT_SCHEMA_VERSIONS@.contains(version)
}

fn check_version(version: u32) -> (r: Result<(), AuditEventRejection>)
    ensures
        match r {
            Ok(_) => audit_schema_supported(version),
            Err(AuditEventRejection::UnsupportedSchemaVersion { found, supported }) => {
                !audit_schema_supported(version) && found == version && supported@
                    == SUPPORTED_AUDIT_SCHEMA_VERSIONS@
            },
        },
{
    let supported = SUPPORTED_AUDIT_SCHEMA_VERSIONS;
    assert(supported@[0] == 1);
    if version != supported[0] {
        let mut versions: Vec<u32> = Vec::new();
        versions.push(supported[0]);
        assert(versions@ =~= SUPPORTED_AUDIT_SCHEMA_VERSIONS@);
        return Err(
            AuditEventRejection::UnsupportedSchemaVersion { found: version, supported: versions },
        );
    }
    Ok(())
}

/// A JSON object without members.
pub open spec fn is_empty_object(j: Json) -> bool {
    j matches Json::Object(members) && members@.len() == 0
}

impl AuditEvent {
    /// A new event at the current version, without correlation, attributes or
    /// unknown members.
    pub fn new(
        event_id: String,
        occurred_at: String,
        actor: AuditActor,
        action: AuditAction,
        target: AuditTarget,
        outcome: AuditOutcome,
        export_class: AuditExportClass,
    ) -> (r: Self)
        ensures
            r.schema_version == AUDIT_SCHEMA_VERSION,
            r.event_id == event_id,
            r.occurred_at == occurred_at,
            r.actor == actor,
            r.action == action,
            r.target == target,
            r.outcome == outcome,
            r.export_class == export_class,
            r.correlation_id is None,
            is_empty_object(r.attributes),
            r.unknown.deep_view() == Map::<Seq<char>, JsonModel>::empty(),
    {
        AuditEvent {
            schema_version: AUDIT_SCHEMA_VERSION,
            event_id,
            occurred_at,
            actor,
            action,
            target,
            outcome,
            export_class,
            correlation_id: None,
            attributes: Json::Object(Vec::new()),
            unknown: SortedMap::new(),
        }
    }

    /// Accepts a wire form of a supported version. Attributes that are absent
    /// are empty; everything else is kept as it is.
    pub fn try_from_wire(w: AuditEventWire) -> (r: Result<Self, AuditEventRejection>)
        ensures
            match r {
                Ok(e) => {
                    &&& audit_schema_supported(w.schema_version)
                    &&& match w.attributes {
                        Some(attributes) => e.attributes == attributes,
                        None => is_empty_object(e.attributes),
                    }
                    &&& e == (AuditEvent {
                        schema_version: w.schema_version,
                        event_id: w.event_id,
                        occurred_at: w.occurred_at,
                        actor: w.actor,
                        action: w.action,
                        target: w.target,
                        outcome: w.outcome,
                        export_class: w.export_class,
                        correlation_id: w.correlation_id,
                        attributes: e.attributes,
                        unknown: w.unknown,
                    })
                },
                Err(AuditEventRejection::UnsupportedSchemaVersion { found, supported }) => {
                    !audit_schema_supported(w.schema_version) && found == w.schema_version
                        && supported@ == SUPPORTED_AUDIT_SCHEMA_VERSIONS@
                },
            },
    {
        match check_version(w.schema_version) {
            Ok(_) => {},
            Err(e) => {
                return Err(e);
            },
        }
        let attributes = match w.attributes {
            Some(attributes) => attributes,
            None => Json::Object(Vec::new()),
        };
        Ok(
            AuditEvent {
                schema_version: w.schema_version,
                event_id: w.event_id,
                occurred_at: w.occurred_at,
                actor: w.actor,
                action: w.action,
                target: w.target,
                outcome: w.outcome,
                export_class: w.export_class,
                correlation_id: w.correlation_id,
                attributes,
                unknown: w.unknown,
            },
        )
    }
}

/// Checks the structure of an event that did not come from the wire.
pub fn validate_audit_event(event: &AuditEvent) -> (r: Result<(), AuditEventRejection>)
    ensures
        match r {
            Ok(_) => audit_schema_supported(event.schema_version),
            Err(AuditEventRejection::UnsupportedSchemaVersion { found, supported }) => {
                !audit_schema_supported(event.schema_version) && found == event.schema_version
                    && supported@ == SUPPORTED_AUDIT_SCHEMA_VERSIONS@
            },
        },
{
    check_version(event.schema_version)
}

/// A new event is one that this library accepts.
pub proof fn law_new_events_are_valid()
    ensures
        audit_schema_supported(AUDIT_SCHEMA_VERSION),
{
    assert(SUPPORTED_AUDIT_SCHEMA_VERSIONS@[0] == AUDIT_SCHEMA_VERSION);
}

/// A reference to an audit event: who issued it, and its identifier there.
#[derive(Debug, Clone, PartialEq, Eq)]
pub struct AuditRef {
    pub issuer_scope: String,
    pub event_id: String,
}

/// The mathematical value of a [`AuditRef`].
#[verifier::ext_equal]
pub struct AuditRefModel {
    pub issuer_scope: Seq<char>,
    pub event_id: Seq<char>,
}

impl DeepView for AuditRef {
    type V = AuditRefModel;

    open spec fn deep_view(&self) -> AuditRefModel {
        AuditRefModel {
            issuer_scope: self.issuer_scope.deep_view(),
            event_id: self.event_id.deep_view(),
        }
    }
}

impl Deep for AuditRef {
    fn deep_clone(&self) -> (r: Self) {
        AuditRef {
            issuer_scope: self.issuer_scope.deep_clone(),
            event_id: self.event_id.deep_clone(),
        }
    }

    fn deep_eq(&self, other: &Self) -> (r: bool) {
        self.issuer_scope.deep_eq(&other.issuer_scope)
            && self.event_id.deep_eq(&other.event_id)
    }
}

/// Why a text is no reference.
#[derive(Debug, Clone, PartialEq, Eq)]
pub enum AuditRefParseError {
    MissingSeparator { input: String },
    EmptyIssuerScope { input: String },
    EmptyEventId { input: String },
}

/// The mathematical value of a [`AuditRefParseError`].
#[verifier::ext_equal]
pub enum AuditRefParseErrorModel {
    MissingSeparator { input: Seq<char> },
    EmptyIssuerScope { input: Seq<char> },
    EmptyEventId { input: Seq<char> },
}

impl DeepView for AuditRefParseError {
    type V = AuditRefParseErrorModel;

    open spec fn deep_view(&self) -> AuditRefParseErrorModel {
        match self {
            AuditRefParseError::MissingSeparator { input } => AuditRefParseErrorModel::MissingSeparator {
                input: input.deep_view(),
            },
            AuditRefParseError::EmptyIssuerScope { input } => AuditRefParseErrorModel::EmptyIssuerScope {
                input: input.deep_view(),
            },
            AuditRefParseError::EmptyEventId { input } => AuditRefParseErrorModel::EmptyEventId {
                input: input.deep_view(),
            },
        }
    }
}

/// The position of the first colon from `i` on.
pub open spec fn first_colon(s: Seq<char>, i: int) -> Option<int>
    decreases s.len() - i,
{
    if i < 0 || i >= s.len() {
        None
    } else if s[i] == ':' {
        Some(i)
    } else {
        first_colon(s, i + 1)
    }
}

/// The text of a reference.
pub open spec fn ref_text(r: AuditRefModel) -> Seq<char> {
    r.issuer_scope + ":"@ + r.event_id
}

/// What a text refers to. It is split at its first colon, so that an event
/// identifier may hold colons and an issuer may not.
pub open spec fn parsed_ref(input: Seq<char>) -> Result<AuditRefModel, AuditRefParseErrorModel> {
    match first_colon(input, 0) {
        None => Err(AuditRefParseErrorModel::MissingSeparator { input }),
        Some(i) => if i == 0 {
            Err(AuditRefParseErrorModel::EmptyIssuerScope { input })
        } else if i + 1 == input.len() {
            Err(AuditRefParseErrorModel::EmptyEventId { input })
        } else {
            Ok(
                AuditRefModel {
                    issuer_scope: input.take(i),
                    event_id: input.skip(i + 1),
                },
            )
        },
    }
}

impl AuditRef {
    pub fn new(issuer_scope: &str, event_id: &str) -> (r: Self)
        ensures
            r.deep_view() == (AuditRefModel { issuer_scope: issuer_scope@, event_id: event_id@ }),
    {
        AuditRef { issuer_scope: issuer_scope.to_owned(), event_id: event_id.to_owned() }
    }

    /// Reads `<issuer-scope>:<event_id>`.
    pub fn parse(input: &str) -> (r: Result<Self, AuditRefParseError>)
        ensures
            match r {
                Ok(a) => parsed_ref(input@) == Ok::<AuditRefModel, AuditRefParseErrorModel>(
                    a.deep_view(),
                ),
                Err(e) => parsed_ref(input@) == Err::<AuditRefModel, AuditRefParseErrorModel>(
                    e.deep_view(),
                ),
            },
    {
        let chars = chars_of(input);
        let mut i: usize = 0;
        while i < chars.len() && chars[i] != ':'
            invariant
                i <= chars.len(),
                chars@ == input@,
                first_colon(input@, 0) == first_colon(input@, i as int),
            decreases chars.len() - i,
        {
            i = i + 1;
        }
        if i == chars.len() {
            return Err(AuditRefParseError::MissingSeparator { input: input.to_owned() });
        }
        if i == 0 {
            return Err(AuditRefParseError::EmptyIssuerScope { input: input.to_owned() });
        }
        if i + 1 == chars.len() {
            return Err(AuditRefParseError::EmptyEventId { input: input.to_owned() });
        }
        let issuer_scope = input.substring_char(0, i);
        let event_id = input.substring_char(i + 1, chars.len());
        assert(issuer_scope@ =~= input@.take(i as int));
        assert(event_id@ =~= input@.skip(i as int + 1));
        Ok(AuditRef { issuer_scope: issuer_scope.to_owned(), event_id: event_id.to_owned() })
    }

    /// The text this reference is read from.
    pub fn to_string(&self) -> (r: String)
        ensures
            r@ == ref_text(self.deep_view()),
    {
        self.issuer_scope.clone().concat(":").concat(self.event_id.as_str())
    }
}

proof fn lemma_first_colon(s: Seq<char>, i: int, at: int)
    requires
        0 <= i <= at < s.len(),
        s[at] == ':',
        forall|j: int| i <= j < at ==> s[j] != ':',
    ensures
        first_colon(s, i) == Some(at),
    decreases at - i,
{
    if i < at {
        lemma_first_colon(s, i + 1, at);
    }
}

proof fn lemma_colon_found(s: Seq<char>, i: int)
    requires
        0 <= i <= s.len(),
    ensures
        first_colon(s, i) matches Some(at) ==> i <= at < s.len() && s[at] == ':',
    decreases s.len() - i,
{
    if i < s.len() && s[i] != ':' {
        lemma_colon_found(s, i + 1);
    }
}

/// A written reference reads back as itself, if neither part is empty and the
/// issuer holds no colon.
pub proof fn law_references_read_back(r: AuditRefModel)
    requires
        r.issuer_scope.len() > 0,
        r.event_id.len() > 0,
        !r.issuer_scope.contains(':'),
    ensures
        parsed_ref(ref_text(r)) == Ok::<AuditRefModel, AuditRefParseErrorModel>(r),
{
    reveal_strlit(":");
    let s = ref_text(r);
    let at = r.issuer_scope.len() as int;
    assert forall|j: int| 0 <= j < at implies s[j] != ':' by {
        assert(s[j] == r.issuer_scope[j]);
    }
    lemma_first_colon(s, 0, at);
    assert(s.take(at) =~= r.issuer_scope);
    assert(s.skip(at + 1) =~= r.event_id);
}

/// A text that is read as a reference is the text that reference is written
/// as.
pub proof fn law_read_references_write_back(input: Seq<char>)
    ensures
        parsed_ref(input) matches Ok(r) ==> ref_text(r) == input,
{
    reveal_strlit(":");
    lemma_colon_found(input, 0);
    if let Ok(r) = parsed_ref(input) {
        assert(ref_text(r) =~= input);
    }
}

/// Whether the colon at `i` is the first one.
pub open spec fn splits_at(input: Seq<char>, i: int) -> bool {
    0 <= i < input.len() && input[i] == ':' && forall|j: int|
        0 <= j < i ==> #[trigger] input[j] != ':'
}

/// A reference is what stands before the first colon and what stands after it,
/// exactly if neither is empty. Without a colon there is none.
pub proof fn law_references_split_at_the_first_colon(input: Seq<char>, i: int)
    ensures
        (forall|j: int| 0 <= j < input.len() ==> #[trigger] input[j] != ':') ==> (parsed_ref(input)
            matches Err(e) && e is MissingSeparator),
        splits_at(input, i) ==> match parsed_ref(input) {
            Ok(r) => 0 < i < input.len() - 1 && r.issuer_scope == input.subrange(0, i)
                && r.event_id == input.subrange(i + 1, input.len() as int),
            Err(AuditRefParseErrorModel::EmptyIssuerScope { .. }) => i == 0,
            Err(AuditRefParseErrorModel::EmptyEventId { .. }) => 0 < i == input.len() - 1,
            Err(AuditRefParseErrorModel::MissingSeparator { .. }) => false,
        },
{
    lemma_colon_found(input, 0);
    if splits_at(input, i) {
        lemma_first_colon(input, 0, i);
        assert(input.take(i) =~= input.subrange(0, i));
        assert(input.skip(i + 1) =~= input.subrange(i + 1, input.len() as int));
    }
}

/// Events of the first version are the only ones read here.
pub proof fn law_only_the_first_version_is_read(version: u32)
    ensures
        audit_schema_supported(version) <==> version == 1,
{
    let supported = SUPPORTED_AUDIT_SCHEMA_VERSIONS@;
    assert(supported.len() == 1 && supported[0] == 1);
    assert(version == 1 ==> supported.contains(supported[0]));
}

} // verus!

//! Policy diagnostics: what is wrong, and what to change.
use vstd::prelude::*;

use super::field::PolicyFieldId;
use super::revision::{PolicyRevisionRef, PolicyRevisionRefModel};
use crate::ident::Uuid;
use crate::model::{Deep, Tag};

verus! {

#[derive(Debug, Clone, Copy, PartialEq, Eq, Structural)]
pub enum DiagnosticSeverity {
    Error,
    Warning,
    Info,
}

impl DeepView for DiagnosticSeverity {
    type V = DiagnosticSeverity;

    open spec fn deep_view(&self) -> DiagnosticSeverity {
        *self
    }
}

impl Deep for DiagnosticSeverity {
    fn deep_clone(&self) -> (r: Self) {
        *self
    }

    fn deep_eq(&self, other: &Self) -> (r: bool) {
        *self == *other
    }
}

/// Stable diagnostic codes.
#[derive(Debug, Clone, Copy, PartialEq, Eq, Structural)]
pub enum DiagnosticCode {
    UnsupportedSchemaVersion,
    DigestMismatch,
    DuplicateActionClassRule,
    UnsortedEnforcementRules,
    PinAtLocalUserLayer,
    PinNamesUnsetField,
    EmptyDisplayName,
    SupersedesSelf,
    RevisionNotMonotonic,
    ConflictingBindingsAtLevel,
    PinViolation,
    SelectorNotUnderstood,
    RequiredSignalUnavailable,
    UnrecognizedEnvValue,
    NoApplicablePolicy,
    PolicyCacheStale,
    PolicyCacheExpired,
    PolicyCacheUnverifiable,
    PolicyCacheUnavailable,
    PolicyRollbackRejected,
    PolicyIssuerMismatch,
    TrustStoreUnavailable,
    PolicyCacheRevoked,
    PolicyRevocationEntryNotUnderstood,
    PolicyRevocationRejected,
    PolicyRefreshUnavailable,
}

impl DeepView for DiagnosticCode {
    type V = DiagnosticCode;

    open spec fn deep_view(&self) -> DiagnosticCode {
        *self
    }
}

impl Deep for DiagnosticCode {
    fn deep_clone(&self) -> (r: Self) {
        *self
    }

    fn deep_eq(&self, other: &Self) -> (r: bool) {
        *self == *other
    }
}

#[derive(Debug, Clone, PartialEq, Eq)]
pub struct PolicyDiagnostic {
    pub code: DiagnosticCode,
    pub severity: DiagnosticSeverity,
    pub field: Option<PolicyFieldId>,
    pub bindings: Vec<Uuid>,
    pub revisions: Vec<PolicyRevisionRef>,
    /// What is wrong.
    pub message: String,
    /// What to change.
    pub remediation: String,
}

/// The mathematical value of a [`PolicyDiagnostic`].
#[verifier::ext_equal]
pub struct PolicyDiagnosticModel {
    pub code: DiagnosticCode,
    pub severity: DiagnosticSeverity,
    pub field: Option<Tag>,
    pub bindings: Seq<Uuid>,
    pub revisions: Seq<PolicyRevisionRefModel>,
    pub message: Seq<char>,
    pub remediation: Seq<char>,
}

impl DeepView for PolicyDiagnostic {
    type V = PolicyDiagnosticModel;

    open spec fn deep_view(&self) -> PolicyDiagnosticModel {
        PolicyDiagnosticModel {
            code: self.code.deep_view(),
            severity: self.severity.deep_view(),
            field: self.field.deep_view(),
            bindings: self.bindings.deep_view(),
            revisions: self.revisions.deep_view(),
            message: self.message.deep_view(),
            remediation: self.remediation.deep_view(),
        }
    }
}

impl Deep for PolicyDiagnostic {
    fn deep_clone(&self) -> (r: Self) {
        PolicyDiagnostic {
            code: self.code.deep_clone(),
            severity: self.severity.deep_clone(),
            field: self.field.deep_clone(),
            bindings: self.bindings.deep_clone(),
            revisions: self.revisions.deep_clone(),
            message: self.message.deep_clone(),
            remediation: self.remediation.deep_clone(),
        }
    }

    fn deep_eq(&self, other: &Self) -> (r: bool) {
        self.code.deep_eq(&other.code)
            && self.severity.deep_eq(&other.severity)
            && self.field.deep_eq(&other.field)
            && self.bindings.deep_eq(&other.bindings)
            && self.revisions.deep_eq(&other.revisions)
            && self.message.deep_eq(&other.message)
            && self.remediation.deep_eq(&other.remediation)
    }
}

/// A diagnostic that names no field, binding or revision.
pub open spec fn plain_diagnostic(
    code: DiagnosticCode,
    severity: DiagnosticSeverity,
    message: Seq<char>,
    remediation: Seq<char>,
) -> PolicyDiagnosticModel {
    PolicyDiagnosticModel {
        code,
        severity,
        field: None,
        bindings: Seq::empty(),
        revisions: Seq::empty(),
        message,
        remediation,
    }
}

impl PolicyDiagnostic {
    pub fn new(
        code: DiagnosticCode,
        severity: DiagnosticSeverity,
        message: String,
        remediation: &str,
    ) -> (r: Self)
        ensures
            r.deep_view() == plain_diagnostic(code, severity, message@, remediation@),
    {
        let r = PolicyDiagnostic {
            code,
            severity,
            field: None,
            bindings: Vec::new(),
            revisions: Vec::new(),
            message,
            remediation: remediation.to_owned(),
        };
        assert(r.deep_view() =~= plain_diagnostic(code, severity, message@, remediation@));
        r
    }

    pub fn with_field(self, field: PolicyFieldId) -> (r: Self)
        ensures
            r.deep_view() == (PolicyDiagnosticModel {
                field: Some(field.deep_view()),
                ..self.deep_view()
            }),
    {
        let mut d = self;
        d.field = Some(field);
        d
    }

    pub fn with_bindings(self, bindings: Vec<Uuid>) -> (r: Self)
        ensures
            r.deep_view() == (PolicyDiagnosticModel {
                bindings: bindings.deep_view(),
                ..self.deep_view()
            }),
    {
        let mut d = self;
        d.bindings = bindings;
        d
    }

    pub fn with_revisions(self, revisions: Vec<PolicyRevisionRef>) -> (r: Self)
        ensures
            r.deep_view() == (PolicyDiagnosticModel {
                revisions: revisions.deep_view(),
                ..self.deep_view()
            }),
    {
        let mut d = self;
        d.revisions = revisions;
        d
    }
}

/// The diagnostics of a failed validation.
#[derive(Debug, Clone, PartialEq, Eq)]
pub struct PolicyValidationReport {
    pub diagnostics: Vec<PolicyDiagnostic>,
}

impl DeepView for PolicyValidationReport {
    type V = Seq<PolicyDiagnosticModel>;

    open spec fn deep_view(&self) -> Seq<PolicyDiagnosticModel> {
        self.diagnostics.deep_view()
    }
}

/// Whether any of the diagnostics is an error.
pub open spec fn any_error(diagnostics: Seq<PolicyDiagnosticModel>) -> bool {
    exists|i: int|
        0 <= i < diagnostics.len() && (#[trigger] diagnostics[i]).severity
            == DiagnosticSeverity::Error
}

impl PolicyValidationReport {
    pub fn has_errors(&self) -> (r: bool)
        ensures
            r == any_error(self.diagnostics.deep_view()),
    {
        let mut i: usize = 0;
        while i < self.diagnostics.len()
            invariant
                i <= self.diagnostics.len(),
                forall|j: int|
                    0 <= j < i ==> (#[trigger] self.diagnostics.deep_view()[j]).severity
                        != DiagnosticSeverity::Error,
            decreases self.diagnostics.len() - i,
        {
            assert(self.diagnostics.deep_view()[i as int].severity
                == self.diagnostics@[i as int].severity);
            if self.diagnostics[i].severity == DiagnosticSeverity::Error {
                return true;
            }
            i = i + 1;
        }
        false
    }
}

} // verus!

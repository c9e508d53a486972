//! Observations, claims and verdicts.
use vstd::prelude::*;

use crate::capabilities::RuntimeCapabilities;
use crate::code::{lemma_number_code_ends, number_code, number_to_code, Coded};
use crate::extension::ExtensionEnvelope;
use crate::ident::Uuid;
use crate::json::Json;
use crate::model::Deep;
use crate::sensor::EvidenceSource;

verus! {

/// Which coding-agent runtime an event or capability originated from.
#[derive(Debug, Clone, Copy, PartialEq, Eq, Hash, Structural)]
pub enum Provider {
    ClaudeCode,
    Codex,
    OpenCode,
    /// No adapter has announced itself for this session yet. A local placeholder,
    /// never persisted or exported.
    Unknown,
}

impl DeepView for Provider {
    type V = Provider;

    open spec fn deep_view(&self) -> Provider {
        *self
    }
}

impl Deep for Provider {
    fn deep_clone(&self) -> (r: Self) {
        *self
    }

    fn deep_eq(&self, other: &Self) -> (r: bool) {
        *self == *other
    }
}

/// Normalized lifecycle event kind.
#[derive(Debug, Clone, Copy, PartialEq, Eq, Structural)]
pub enum EventKind {
    SessionStart,
    SessionEnd,
    UserPromptSubmit,
    PreToolUse,
    PostToolUse,
    SubagentStart,
    SubagentStop,
    Notification,
}

impl DeepView for EventKind {
    type V = EventKind;

    open spec fn deep_view(&self) -> EventKind {
        *self
    }
}

impl Deep for EventKind {
    fn deep_clone(&self) -> (r: Self) {
        *self
    }

    fn deep_eq(&self, other: &Self) -> (r: bool) {
        *self == *other
    }
}

/// An immutable, provider-normalized observation.
#[derive(Debug, Clone, PartialEq, Eq)]
pub struct AgentEvent {
    pub id: Uuid,
    pub session_id: String,
    pub provider: Provider,
    pub kind: EventKind,
    /// When this event was observed locally, in RFC 3339.
    pub observed_at: String,
    pub tool_name: Option<String>,
    pub tool_input: Option<Json>,
    /// The provider's own summarized result for the tool call.
    pub tool_response: Option<Json>,
    /// The untouched provider payload.
    pub raw: Json,
}

/// An assertion extracted from agent output: a hypothesis to check, not a
/// fact.
#[derive(Debug, Clone, PartialEq, Eq)]
pub struct Claim {
    pub id: Uuid,
    pub session_id: String,
    pub source_event_id: Uuid,
    pub text: String,
    /// Coarse claim category a verifier can match on.
    pub subject: String,
    pub claimed_at: String,
}

/// What was directly observed, independent of any claim. Closed: a new shape of
/// evidence widens an existing payload.
#[derive(Debug, Clone, Copy, PartialEq, Eq, Structural)]
pub enum EvidenceKind {
    ToolResult,
    ExitCode,
    FileDiff,
    ProcessObservation,
    TranscriptExcerpt,
}

impl DeepView for EvidenceKind {
    type V = EvidenceKind;

    open spec fn deep_view(&self) -> EvidenceKind {
        *self
    }
}

impl Deep for EvidenceKind {
    fn deep_clone(&self) -> (r: Self) {
        *self
    }

    fn deep_eq(&self, other: &Self) -> (r: bool) {
        *self == *other
    }
}

/// One piece of observed, provenance-carrying evidence.
#[derive(Debug, Clone, PartialEq, Eq)]
pub struct Evidence {
    pub id: Uuid,
    pub session_id: String,
    pub source_event_id: Uuid,
    pub kind: EvidenceKind,
    pub observed_at: String,
    pub payload: Json,
    /// Human-readable provenance.
    pub provenance: String,
    /// Structured sensor provenance, where it was recorded.
    pub source: Option<EvidenceSource>,
    /// Versioned provider data that does not fit `payload`.
    pub extension: Option<ExtensionEnvelope>,
    /// Whether the payload has been purged and replaced by a marker.
    pub evidence_purged: bool,
}

/// Canonical payload of [`EvidenceKind::ExitCode`].
#[derive(Debug, Clone, PartialEq, Eq)]
pub struct ExitCodePayload {
    pub command: Json,
    pub exit_code: i64,
    /// Whether the exit code was inferred rather than reported.
    pub heuristic: bool,
}

/// Canonical payload of [`EvidenceKind::ToolResult`].
#[derive(Debug, Clone, PartialEq, Eq)]
pub struct ToolResultPayload {
    pub summary: String,
}

/// Canonical payload of [`EvidenceKind::FileDiff`].
#[derive(Debug, Clone, PartialEq, Eq)]
pub struct FileDiffPayload {
    pub path: String,
    pub diff: String,
}

/// Canonical payload of [`EvidenceKind::ProcessObservation`].
#[derive(Debug, Clone, PartialEq, Eq)]
pub struct ProcessObservationPayload {
    pub description: String,
    pub observation: Option<ProcessObservationDetail>,
}

/// What a process observation found.
#[derive(Debug, Clone, PartialEq, Eq)]
pub enum ProcessObservationDetail {
    VcsOperation {
        operation: VcsOperation,
        outcome: VcsOutcome,
        commit_sha: Option<String>,
        branch: Option<String>,
        remote: Option<String>,
    },
    FileWriteObserved {
        claimed_path: String,
        exists: bool,
        modified_at: Option<String>,
        consistent_with_claim: bool,
    },
    CommandDuration { duration_ms: i64 },
    WorkingTreeStatusObserved {
        claimed_path: String,
        is_repo: bool,
        head_commit: Option<String>,
        path_is_dirty: bool,
    },
    CiCheckStatus { repo: String, commit_sha: String, total_count: i64, overall: CiOverallStatus },
}

/// Coarse aggregate of a commit's check runs.
#[derive(Debug, Clone, Copy, PartialEq, Eq, Structural)]
pub enum CiOverallStatus {
    Success,
    Failure,
    Pending,
    /// No runs were reported, or one with an unrecognised conclusion.
    Unknown,
}

impl DeepView for CiOverallStatus {
    type V = CiOverallStatus;

    open spec fn deep_view(&self) -> CiOverallStatus {
        *self
    }
}

impl Deep for CiOverallStatus {
    fn deep_clone(&self) -> (r: Self) {
        *self
    }

    fn deep_eq(&self, other: &Self) -> (r: bool) {
        *self == *other
    }
}

#[derive(Debug, Clone, Copy, PartialEq, Eq, Structural)]
pub enum VcsOperation {
    Commit,
    Push,
}

impl DeepView for VcsOperation {
    type V = VcsOperation;

    open spec fn deep_view(&self) -> VcsOperation {
        *self
    }
}

impl Deep for VcsOperation {
    fn deep_clone(&self) -> (r: Self) {
        *self
    }

    fn deep_eq(&self, other: &Self) -> (r: bool) {
        *self == *other
    }
}

#[derive(Debug, Clone, Copy, PartialEq, Eq, Structural)]
pub enum VcsOutcome {
    Created,
    NothingToCommit,
    RefUpdated,
    UpToDate,
    Rejected,
}

impl DeepView for VcsOutcome {
    type V = VcsOutcome;

    open spec fn deep_view(&self) -> VcsOutcome {
        *self
    }
}

impl Deep for VcsOutcome {
    fn deep_clone(&self) -> (r: Self) {
        *self
    }

    fn deep_eq(&self, other: &Self) -> (r: bool) {
        *self == *other
    }
}

/// Canonical payload of [`EvidenceKind::TranscriptExcerpt`].
#[derive(Debug, Clone, PartialEq, Eq)]
pub struct TranscriptExcerptPayload {
    pub text: String,
}

/// The five-state verdict vocabulary. Never collapsed to a boolean or a score.
#[derive(Debug, Clone, Copy, PartialEq, Eq, Structural)]
pub enum Verdict {
    Verified,
    Unverified,
    Contradicted,
    Review,
    Unavailable,
}

impl DeepView for Verdict {
    type V = Verdict;

    open spec fn deep_view(&self) -> Verdict {
        *self
    }
}

impl Deep for Verdict {
    fn deep_clone(&self) -> (r: Self) {
        *self
    }

    fn deep_eq(&self, other: &Self) -> (r: bool) {
        *self == *other
    }
}

/// What a verifier concluded about a claim.
#[derive(Debug, Clone, PartialEq, Eq)]
pub struct Finding {
    pub id: Uuid,
    pub claim_id: Uuid,
    pub verdict: Verdict,
    pub evidence_ids: Vec<Uuid>,
    pub verifier_name: String,
    pub rationale: String,
    pub computed_at: String,
}

/// One message of the protocol adapters speak to the daemon.
#[derive(Debug, Clone, PartialEq, Eq)]
pub enum IngestMessage {
    Event(AgentEvent),
    Claim(Claim),
    Evidence(Evidence),
    /// A signed policy bundle envelope, as read.
    PolicyBundle { envelope: String },
    /// A signed revocation list envelope, as read.
    PolicyRevocation { envelope: String },
    Capabilities(RuntimeCapabilities),
}

impl Coded for Provider {
    open spec fn code(v: Provider) -> Seq<char> {
        number_code(
            match v {
                Provider::ClaudeCode => 0,
                Provider::Codex => 1,
                Provider::OpenCode => 2,
                Provider::Unknown => 3,
            },
        )
    }

    open spec fn codable(v: Provider) -> bool {
        true
    }

    proof fn lemma_codable(value: Provider) {
    }

    proof fn lemma_code_ends(a: Provider, b: Provider, x: Seq<char>, y: Seq<char>) {
        let number = |v: Provider| -> nat
            {
                match v {
                    Provider::ClaudeCode => 0,
                    Provider::Codex => 1,
                    Provider::OpenCode => 2,
                    Provider::Unknown => 3,
                }
            };
        lemma_number_code_ends(number(a), number(b), x, y);
    }

    fn to_code(&self) -> (r: String) {
        let number: u128 = match self {
            Provider::ClaudeCode => 0,
            Provider::Codex => 1,
            Provider::OpenCode => 2,
            Provider::Unknown => 3,
        };
        number_to_code(number)
    }
}

} // verus!

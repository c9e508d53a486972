//! What a provider integration can observe, declared signal class by signal
//! class. A missing declaration is never read as a pass.
use vstd::prelude::*;

use crate::code::{known_tag_to_code, lemma_tag_code_ends, tag_code, tag_to_code, Coded};
use crate::evidence::Provider;
use crate::json::{json_string, quote_json};
use crate::model::{known_tag, Deep, Tag};
use crate::order::{text_key, OrderKey, Sortable, SortedMap};
use crate::text::{quote_debug, str_before, str_debug, str_eq};

verus! {

/// Version of the [`RuntimeCapabilities`] snapshot shape.
pub const CAPABILITY_SCHEMA_VERSION: u32 = 1;

/// Availability of one [`SignalClass`] for a provider session.
///
/// `Unknown` is ordinary absence: nothing has declared an opinion. It is distinct
/// from `Unrecognized`, which means that this binary does not know the tag.
#[derive(Debug, Clone, PartialEq, Eq)]
pub enum SignalAvailability {
    /// Confirmed observable this session.
    Available,
    /// This runtime fundamentally cannot expose the signal class.
    Unsupported,
    /// The class exists for this provider, but this session did not expose it.
    Unavailable,
    /// Observed, then withheld by the local privacy boundary.
    Redacted,
    /// Collection was attempted and failed.
    CollectionFailed,
    /// No adapter has declared an opinion about this class.
    Unknown,
    /// A value this binary does not recognise, kept as it was written.
    Unrecognized(String),
}

impl DeepView for SignalAvailability {
    type V = Tag;

    open spec fn deep_view(&self) -> Tag {
        match self {
            SignalAvailability::Available => known_tag(0),
            SignalAvailability::Unsupported => known_tag(1),
            SignalAvailability::Unavailable => known_tag(2),
            SignalAvailability::Redacted => known_tag(3),
            SignalAvailability::CollectionFailed => known_tag(4),
            SignalAvailability::Unknown => known_tag(5),
            SignalAvailability::Unrecognized(s) => Tag { index: 6, text: s@ },
        }
    }
}

impl SignalAvailability {
    fn index(&self) -> (r: u8)
        ensures
            r == self.deep_view().index,
    {
        match self {
            SignalAvailability::Available => 0,
            SignalAvailability::Unsupported => 1,
            SignalAvailability::Unavailable => 2,
            SignalAvailability::Redacted => 3,
            SignalAvailability::CollectionFailed => 4,
            SignalAvailability::Unknown => 5,
            SignalAvailability::Unrecognized(_) => 6,
        }
    }

    /// The name a value is written under.
    pub open spec fn wire_text(v: Tag) -> Seq<char> {
        if v.index == 0 {
            "available"@
        } else if v.index == 1 {
            "unsupported"@
        } else if v.index == 2 {
            "unavailable"@
        } else if v.index == 3 {
            "redacted"@
        } else if v.index == 4 {
            "collection_failed"@
        } else if v.index == 5 {
            "unknown"@
        } else {
            v.text
        }
    }

    /// The name this value is written under.
    pub fn wire_tag(&self) -> (r: String)
        ensures
            r@ == Self::wire_text(self.deep_view()),
    {
        match self {
            SignalAvailability::Available => "available".to_owned(),
            SignalAvailability::Unsupported => "unsupported".to_owned(),
            SignalAvailability::Unavailable => "unavailable".to_owned(),
            SignalAvailability::Redacted => "redacted".to_owned(),
            SignalAvailability::CollectionFailed => "collection_failed".to_owned(),
            SignalAvailability::Unknown => "unknown".to_owned(),
            SignalAvailability::Unrecognized(s) => s.clone(),
        }
    }
}

impl Deep for SignalAvailability {
    fn deep_clone(&self) -> (r: Self) {
        match self {
            SignalAvailability::Available => SignalAvailability::Available,
            SignalAvailability::Unsupported => SignalAvailability::Unsupported,
            SignalAvailability::Unavailable => SignalAvailability::Unavailable,
            SignalAvailability::Redacted => SignalAvailability::Redacted,
            SignalAvailability::CollectionFailed => SignalAvailability::CollectionFailed,
            SignalAvailability::Unknown => SignalAvailability::Unknown,
            SignalAvailability::Unrecognized(s) => SignalAvailability::Unrecognized(s.clone()),
        }
    }

    fn deep_eq(&self, other: &Self) -> (r: bool) {
        match (self, other) {
            (SignalAvailability::Unrecognized(a), SignalAvailability::Unrecognized(b)) => *a == *b,
            _ => self.index() == other.index(),
        }
    }
}

/// A class of signal a provider integration might be able to observe.
#[derive(Debug, Clone, PartialEq, Eq)]
pub enum SignalClass {
    /// Pre-execution interception of a tool call.
    ToolInvocation,
    /// Post-execution observation that a tool call happened.
    ToolTrace,
    /// The provider's own serialized result body for a tool call.
    ToolResultPayload,
    /// A literal process exit code or termination status.
    ProcessResult,
    /// Session start and end events.
    SessionLifecycle,
    /// Subagent start and stop events.
    SubagentLifecycle,
    /// The agent's final natural-language response.
    FinalResponse,
    /// A provider-summarized view of the model's reasoning.
    ReasoningSummary,
    /// Unsummarized reasoning tokens.
    RawReasoning,
    /// Per-token log-probabilities.
    TokenLogprobs,
    /// Any other provider-internal telemetry.
    InternalModelSignals,
    /// A value this binary does not recognise, kept as it was written.
    Unrecognized(String),
}

impl DeepView for SignalClass {
    type V = Tag;

    open spec fn deep_view(&self) -> Tag {
        match self {
            SignalClass::ToolInvocation => known_tag(0),
            SignalClass::ToolTrace => known_tag(1),
            SignalClass::ToolResultPayload => known_tag(2),
            SignalClass::ProcessResult => known_tag(3),
            SignalClass::SessionLifecycle => known_tag(4),
            SignalClass::SubagentLifecycle => known_tag(5),
            SignalClass::FinalResponse => known_tag(6),
            SignalClass::ReasoningSummary => known_tag(7),
            SignalClass::RawReasoning => known_tag(8),
            SignalClass::TokenLogprobs => known_tag(9),
            SignalClass::InternalModelSignals => known_tag(10),
            SignalClass::Unrecognized(s) => Tag { index: 11, text: s@ },
        }
    }
}

impl SignalClass {
    fn index(&self) -> (r: u8)
        ensures
            r == self.deep_view().index,
    {
        match self {
            SignalClass::ToolInvocation => 0,
            SignalClass::ToolTrace => 1,
            SignalClass::ToolResultPayload => 2,
            SignalClass::ProcessResult => 3,
            SignalClass::SessionLifecycle => 4,
            SignalClass::SubagentLifecycle => 5,
            SignalClass::FinalResponse => 6,
            SignalClass::ReasoningSummary => 7,
            SignalClass::RawReasoning => 8,
            SignalClass::TokenLogprobs => 9,
            SignalClass::InternalModelSignals => 10,
            SignalClass::Unrecognized(_) => 11,
        }
    }

    /// The name a value is written under.
    pub open spec fn wire_text(v: Tag) -> Seq<char> {
        if v.index == 0 {
            "tool_invocation"@
        } else if v.index == 1 {
            "tool_trace"@
        } else if v.index == 2 {
            "tool_result_payload"@
        } else if v.index == 3 {
            "process_result"@
        } else if v.index == 4 {
            "session_lifecycle"@
        } else if v.index == 5 {
            "subagent_lifecycle"@
        } else if v.index == 6 {
            "final_response"@
        } else if v.index == 7 {
            "reasoning_summary"@
        } else if v.index == 8 {
            "raw_reasoning"@
        } else if v.index == 9 {
            "token_logprobs"@
        } else if v.index == 10 {
            "internal_model_signals"@
        } else {
            v.text
        }
    }

    /// The name this value is written under.
    pub fn wire_tag(&self) -> (r: String)
        ensures
            r@ == Self::wire_text(self.deep_view()),
    {
        match self {
            SignalClass::ToolInvocation => "tool_invocation".to_owned(),
            SignalClass::ToolTrace => "tool_trace".to_owned(),
            SignalClass::ToolResultPayload => "tool_result_payload".to_owned(),
            SignalClass::ProcessResult => "process_result".to_owned(),
            SignalClass::SessionLifecycle => "session_lifecycle".to_owned(),
            SignalClass::SubagentLifecycle => "subagent_lifecycle".to_owned(),
            SignalClass::FinalResponse => "final_response".to_owned(),
            SignalClass::ReasoningSummary => "reasoning_summary".to_owned(),
            SignalClass::RawReasoning => "raw_reasoning".to_owned(),
            SignalClass::TokenLogprobs => "token_logprobs".to_owned(),
            SignalClass::InternalModelSignals => "internal_model_signals".to_owned(),
            SignalClass::Unrecognized(s) => s.clone(),
        }
    }

    /// How diagnostics spell a value.
    pub open spec fn debug_text(v: Tag) -> Seq<char> {
        if v.index == 0 {
            "ToolInvocation"@
        } else if v.index == 1 {
            "ToolTrace"@
        } else if v.index == 2 {
            "ToolResultPayload"@
        } else if v.index == 3 {
            "ProcessResult"@
        } else if v.index == 4 {
            "SessionLifecycle"@
        } else if v.index == 5 {
            "SubagentLifecycle"@
        } else if v.index == 6 {
            "FinalResponse"@
        } else if v.index == 7 {
            "ReasoningSummary"@
        } else if v.index == 8 {
            "RawReasoning"@
        } else if v.index == 9 {
            "TokenLogprobs"@
        } else if v.index == 10 {
            "InternalModelSignals"@
        } else {
            "Unrecognized("@ + str_debug(v.text) + ")"@
        }
    }

    /// How diagnostics spell this value.
    pub(crate) fn debug_name(&self) -> (r: String)
        ensures
            r@ == Self::debug_text(self.deep_view()),
    {
        match self {
            SignalClass::ToolInvocation => "ToolInvocation".to_owned(),
            SignalClass::ToolTrace => "ToolTrace".to_owned(),
            SignalClass::ToolResultPayload => "ToolResultPayload".to_owned(),
            SignalClass::ProcessResult => "ProcessResult".to_owned(),
            SignalClass::SessionLifecycle => "SessionLifecycle".to_owned(),
            SignalClass::SubagentLifecycle => "SubagentLifecycle".to_owned(),
            SignalClass::FinalResponse => "FinalResponse".to_owned(),
            SignalClass::ReasoningSummary => "ReasoningSummary".to_owned(),
            SignalClass::RawReasoning => "RawReasoning".to_owned(),
            SignalClass::TokenLogprobs => "TokenLogprobs".to_owned(),
            SignalClass::InternalModelSignals => "InternalModelSignals".to_owned(),
            SignalClass::Unrecognized(s) => "Unrecognized(".to_owned().concat(quote_debug(s.as_str()).as_str()).concat(
                ")",
            ),
        }
    }
}

impl Deep for SignalClass {
    fn deep_clone(&self) -> (r: Self) {
        match self {
            SignalClass::ToolInvocation => SignalClass::ToolInvocation,
            SignalClass::ToolTrace => SignalClass::ToolTrace,
            SignalClass::ToolResultPayload => SignalClass::ToolResultPayload,
            SignalClass::ProcessResult => SignalClass::ProcessResult,
            SignalClass::SessionLifecycle => SignalClass::SessionLifecycle,
            SignalClass::SubagentLifecycle => SignalClass::SubagentLifecycle,
            SignalClass::FinalResponse => SignalClass::FinalResponse,
            SignalClass::ReasoningSummary => SignalClass::ReasoningSummary,
            SignalClass::RawReasoning => SignalClass::RawReasoning,
            SignalClass::TokenLogprobs => SignalClass::TokenLogprobs,
            SignalClass::InternalModelSignals => SignalClass::InternalModelSignals,
            SignalClass::Unrecognized(s) => SignalClass::Unrecognized(s.clone()),
        }
    }

    fn deep_eq(&self, other: &Self) -> (r: bool) {
        match (self, other) {
            (SignalClass::Unrecognized(a), SignalClass::Unrecognized(b)) => *a == *b,
            _ => self.index() == other.index(),
        }
    }
}

/// Signal classes sort by the JSON string of their wire tag.
impl Sortable for SignalClass {
    open spec fn sort_key(v: Tag) -> OrderKey {
        text_key(json_string(SignalClass::wire_text(v)))
    }

    fn sorts_before(&self, other: &Self) -> (r: bool) {
        let a = signal_class_sort_key(self);
        let b = signal_class_sort_key(other);
        str_before(a.as_str(), b.as_str())
    }
}

/// What signal classes are sorted by.
pub fn signal_class_sort_key(class: &SignalClass) -> (r: String)
    ensures
        r@ == json_string(SignalClass::wire_text(class.deep_view())),
{
    quote_json(class.wire_tag().as_str())
}

impl SignalAvailability {
    /// The state a tag names: a canonical tag gives its own variant, anything
    /// else is kept as unrecognised.
    pub open spec fn of_tag(tag: Seq<char>) -> Tag {
        if tag == "available"@ {
            known_tag(0)
        } else if tag == "unsupported"@ {
            known_tag(1)
        } else if tag == "unavailable"@ {
            known_tag(2)
        } else if tag == "redacted"@ {
            known_tag(3)
        } else if tag == "collection_failed"@ {
            known_tag(4)
        } else if tag == "unknown"@ {
            known_tag(5)
        } else {
            Tag { index: 6, text: tag }
        }
    }

    /// Normalizing constructor: maps a canonical tag to its variant, and
    /// anything else to `Unrecognized`.
    pub fn from_tag(tag: &str) -> (r: Self)
        ensures
            r.deep_view() == Self::of_tag(tag@),
    {
        if str_eq(tag, "available") {
            SignalAvailability::Available
        } else if str_eq(tag, "unsupported") {
            SignalAvailability::Unsupported
        } else if str_eq(tag, "unavailable") {
            SignalAvailability::Unavailable
        } else if str_eq(tag, "redacted") {
            SignalAvailability::Redacted
        } else if str_eq(tag, "collection_failed") {
            SignalAvailability::CollectionFailed
        } else if str_eq(tag, "unknown") {
            SignalAvailability::Unknown
        } else {
            SignalAvailability::Unrecognized(tag.to_owned())
        }
    }
}

/// One capability declaration: a signal class, its state, and why.
#[derive(Debug, Clone, PartialEq, Eq)]
pub struct CapabilitySignal {
    pub class: SignalClass,
    pub state: SignalAvailability,
    pub detail: Option<String>,
}

/// The mathematical value of a [`CapabilitySignal`].
#[verifier::ext_equal]
pub struct CapabilitySignalModel {
    pub class: Tag,
    pub state: Tag,
    pub detail: Option<Seq<char>>,
}

impl DeepView for CapabilitySignal {
    type V = CapabilitySignalModel;

    open spec fn deep_view(&self) -> CapabilitySignalModel {
        CapabilitySignalModel {
            class: self.class.deep_view(),
            state: self.state.deep_view(),
            detail: self.detail.deep_view(),
        }
    }
}

impl Deep for CapabilitySignal {
    fn deep_clone(&self) -> (r: Self) {
        CapabilitySignal {
            class: self.class.deep_clone(),
            state: self.state.deep_clone(),
            detail: self.detail.deep_clone(),
        }
    }

    fn deep_eq(&self, other: &Self) -> (r: bool) {
        self.class.deep_eq(&other.class)
            && self.state.deep_eq(&other.state)
            && self.detail.deep_eq(&other.detail)
    }
}

/// What a provider integration's current connection can observe.
#[derive(Debug, Clone, PartialEq, Eq)]
pub struct RuntimeCapabilities {
    pub schema_version: u32,
    pub provider: Provider,
    pub signals: Vec<CapabilitySignal>,
    /// Free-form notes by key.
    pub notes: SortedMap<String, String>,
}

/// The mathematical value of a [`RuntimeCapabilities`].
#[verifier::ext_equal]
pub struct RuntimeCapabilitiesModel {
    pub schema_version: u32,
    pub provider: Provider,
    pub signals: Seq<CapabilitySignalModel>,
    pub notes: Map<Seq<char>, Seq<char>>,
}

impl DeepView for RuntimeCapabilities {
    type V = RuntimeCapabilitiesModel;

    open spec fn deep_view(&self) -> RuntimeCapabilitiesModel {
        RuntimeCapabilitiesModel {
            schema_version: self.schema_version.deep_view(),
            provider: self.provider.deep_view(),
            signals: self.signals.deep_view(),
            notes: self.notes.deep_view(),
        }
    }
}

impl Deep for RuntimeCapabilities {
    fn deep_clone(&self) -> (r: Self) {
        RuntimeCapabilities {
            schema_version: self.schema_version.deep_clone(),
            provider: self.provider.deep_clone(),
            signals: self.signals.deep_clone(),
            notes: self.notes.deep_clone(),
        }
    }

    fn deep_eq(&self, other: &Self) -> (r: bool) {
        self.schema_version.deep_eq(&other.schema_version)
            && self.provider.deep_eq(&other.provider)
            && self.signals.deep_eq(&other.signals)
            && self.notes.deep_eq(&other.notes)
    }
}

/// The accepted wire shape: the declarations, beside the six flat booleans
/// that older payloads carry instead.
#[derive(Debug, Clone, PartialEq, Eq)]
pub struct RuntimeCapabilitiesWire {
    pub schema_version: u32,
    pub provider: Provider,
    pub signals: Vec<CapabilitySignal>,
    pub notes: SortedMap<String, String>,
    pub supports_pre_tool_use: bool,
    pub supports_post_tool_use: bool,
    pub supports_tool_response_capture: bool,
    pub supports_session_stop_event: bool,
    pub supports_transcript_tail: bool,
    pub supports_subagent_lifecycle: bool,
}

/// The state of `class` in a list of declarations: that of the first
/// declaration of the class, and `Unknown` without one.
pub open spec fn declared_state(signals: Seq<CapabilitySignalModel>, class: Tag) -> Tag
    decreases signals.len(),
{
    if signals.len() == 0 {
        known_tag(5)
    } else if signals[0].class == class {
        signals[0].state
    } else {
        declared_state(signals.drop_first(), class)
    }
}

/// Whether `class` is confirmed available.
pub open spec fn declared_observable(signals: Seq<CapabilitySignalModel>, class: Tag) -> bool {
    declared_state(signals, class) == known_tag(0)
}

/// The declaration an old boolean amounts to: a plain "no" never told
/// "unsupported" from "not probed", so it reads as unknown.
pub open spec fn legacy_signal(class: int, supported: bool) -> CapabilitySignalModel {
    CapabilitySignalModel {
        class: known_tag(class),
        state: known_tag(if supported { 0 } else { 5 }),
        detail: None,
    }
}

/// The declarations that the six flat booleans amount to.
pub open spec fn legacy_signals(w: RuntimeCapabilitiesWire) -> Seq<CapabilitySignalModel> {
    seq![
        legacy_signal(0, w.supports_pre_tool_use),
        legacy_signal(1, w.supports_post_tool_use),
        legacy_signal(2, w.supports_tool_response_capture),
        legacy_signal(4, w.supports_session_stop_event),
        legacy_signal(6, w.supports_transcript_tail),
        legacy_signal(5, w.supports_subagent_lifecycle),
    ]
}

fn legacy_bool_to_availability(supported: bool) -> (r: SignalAvailability)
    ensures
        r.deep_view() == known_tag(if supported { 0 } else { 5 }),
{
    if supported {
        SignalAvailability::Available
    } else {
        SignalAvailability::Unknown
    }
}

fn legacy_declaration(class: SignalClass, supported: bool) -> (r: CapabilitySignal)
    ensures
        r.deep_view() == (CapabilitySignalModel {
            class: class.deep_view(),
            state: known_tag(if supported { 0 } else { 5 }),
            detail: None,
        }),
{
    CapabilitySignal { class, state: legacy_bool_to_availability(supported), detail: None }
}

impl RuntimeCapabilities {
    /// Reads the wire shape. A non-empty list of declarations is
    /// authoritative; an empty one means an older payload, whose booleans are
    /// rebuilt into the six classes they covered. A missing version is the
    /// current one.
    pub fn from_wire(w: RuntimeCapabilitiesWire) -> (r: Self)
        ensures
            r.schema_version == (if w.schema_version == 0 {
                CAPABILITY_SCHEMA_VERSION
            } else {
                w.schema_version
            }),
            r.provider == w.provider,
            r.signals.deep_view() == (if w.signals@.len() > 0 {
                w.signals.deep_view()
            } else {
                legacy_signals(w)
            }),
            r.notes == w.notes,
    {
        let ghost all = w;
        let signals = if !w.signals.is_empty() {
            w.signals
        } else {
            let mut v: Vec<CapabilitySignal> = Vec::new();
            v.push(legacy_declaration(SignalClass::ToolInvocation, w.supports_pre_tool_use));
            v.push(legacy_declaration(SignalClass::ToolTrace, w.supports_post_tool_use));
            v.push(
                legacy_declaration(
                    SignalClass::ToolResultPayload,
                    w.supports_tool_response_capture,
                ),
            );
            v.push(legacy_declaration(SignalClass::SessionLifecycle, w.supports_session_stop_event));
            v.push(legacy_declaration(SignalClass::FinalResponse, w.supports_transcript_tail));
            v.push(
                legacy_declaration(SignalClass::SubagentLifecycle, w.supports_subagent_lifecycle),
            );
            assert(v.deep_view() =~= legacy_signals(all));
            v
        };
        RuntimeCapabilities {
            schema_version: if w.schema_version == 0 {
                CAPABILITY_SCHEMA_VERSION
            } else {
                w.schema_version
            },
            provider: w.provider,
            signals,
            notes: w.notes,
        }
    }

    /// The declared state of `class`, or `Unknown` if nothing declared one.
    /// The first declaration of a class wins.
    pub fn state_of(&self, class: &SignalClass) -> (r: SignalAvailability)
        ensures
            r.deep_view() == declared_state(self.signals.deep_view(), class.deep_view()),
    {
        let mut i: usize = 0;
        let ghost all = self.signals.deep_view();
        assert(all.skip(0) =~= all);
        while i < self.signals.len()
            invariant
                i <= self.signals.len(),
                all == self.signals.deep_view(),
                declared_state(all, class.deep_view()) == declared_state(
                    all.skip(i as int),
                    class.deep_view(),
                ),
            decreases self.signals.len() - i,
        {
            assert(all.skip(i as int)[0] == self.signals@[i as int].deep_view());
            if self.signals[i].class.deep_eq(class) {
                return self.signals[i].state.deep_clone();
            }
            assert(all.skip(i as int).drop_first() =~= all.skip(i as int + 1));
            i = i + 1;
        }
        SignalAvailability::Unknown
    }

    /// True only when `class` is confirmed `Available`.
    pub fn is_observable(&self, class: &SignalClass) -> (r: bool)
        ensures
            r == declared_observable(self.signals.deep_view(), class.deep_view()),
    {
        match self.state_of(class) {
            SignalAvailability::Available => true,
            _ => false,
        }
    }
}

/// An adapter's declaration of what it can currently observe. May be called
/// any number of times.
pub trait CapabilityProbe {
    fn probe(&self) -> RuntimeCapabilities;
}

/// The flat six-boolean projection for consumers that know only the older
/// shape.
#[derive(Debug, Clone, PartialEq, Eq)]
pub struct LegacyCapabilitiesWire {
    pub provider: Provider,
    pub supports_pre_tool_use: bool,
    pub supports_post_tool_use: bool,
    pub supports_tool_response_capture: bool,
    pub supports_session_stop_event: bool,
    pub supports_transcript_tail: bool,
    pub supports_subagent_lifecycle: bool,
    pub notes: SortedMap<String, String>,
}

impl LegacyCapabilitiesWire {
    /// Projects the declarations onto the six booleans: each is true exactly
    /// when its class is observable.
    pub fn from_capabilities(c: &RuntimeCapabilities) -> (r: Self)
        ensures
            r.provider == c.provider,
            r.supports_pre_tool_use == declared_observable(c.signals.deep_view(), known_tag(0)),
            r.supports_post_tool_use == declared_observable(c.signals.deep_view(), known_tag(1)),
            r.supports_tool_response_capture == declared_observable(
                c.signals.deep_view(),
                known_tag(2),
            ),
            r.supports_session_stop_event == declared_observable(
                c.signals.deep_view(),
                known_tag(4),
            ),
            r.supports_transcript_tail == declared_observable(c.signals.deep_view(), known_tag(6)),
            r.supports_subagent_lifecycle == declared_observable(
                c.signals.deep_view(),
                known_tag(5),
            ),
            r.notes.deep_view() == c.notes.deep_view(),
    {
        LegacyCapabilitiesWire {
            provider: c.provider,
            supports_pre_tool_use: c.is_observable(&SignalClass::ToolInvocation),
            supports_post_tool_use: c.is_observable(&SignalClass::ToolTrace),
            supports_tool_response_capture: c.is_observable(&SignalClass::ToolResultPayload),
            supports_session_stop_event: c.is_observable(&SignalClass::SessionLifecycle),
            supports_transcript_tail: c.is_observable(&SignalClass::FinalResponse),
            supports_subagent_lifecycle: c.is_observable(&SignalClass::SubagentLifecycle),
            notes: c.notes.deep_clone(),
        }
    }
}

/// The six booleans of an older payload come back unchanged when what was
/// rebuilt from them is projected onto booleans again.
pub proof fn law_legacy_booleans_round_trip(w: RuntimeCapabilitiesWire)
    ensures
        declared_observable(legacy_signals(w), known_tag(0)) == w.supports_pre_tool_use,
        declared_observable(legacy_signals(w), known_tag(1)) == w.supports_post_tool_use,
        declared_observable(legacy_signals(w), known_tag(2)) == w.supports_tool_response_capture,
        declared_observable(legacy_signals(w), known_tag(4)) == w.supports_session_stop_event,
        declared_observable(legacy_signals(w), known_tag(6)) == w.supports_transcript_tail,
        declared_observable(legacy_signals(w), known_tag(5)) == w.supports_subagent_lifecycle,
{
    reveal_with_fuel(declared_state, 8);
}

/// A class that no declaration names is not observable.
pub proof fn law_undeclared_class_is_unknown(signals: Seq<CapabilitySignalModel>, class: Tag)
    requires
        forall|i: int| 0 <= i < signals.len() ==> (#[trigger] signals[i]).class != class,
    ensures
        declared_state(signals, class) == known_tag(5),
        !declared_observable(signals, class),
    decreases signals.len(),
{
    if signals.len() > 0 {
        let rest = signals.drop_first();
        assert forall|i: int| 0 <= i < rest.len() implies (#[trigger] rest[i]).class != class by {
            assert(rest[i] == signals[i + 1]);
        }
        law_undeclared_class_is_unknown(rest, class);
    }
}

impl Coded for SignalClass {
    open spec fn code(v: Tag) -> Seq<char> {
        tag_code(v)
    }

    open spec fn codable(v: Tag) -> bool {
        0 <= v.index
    }

    proof fn lemma_codable(value: SignalClass) {
    }

    proof fn lemma_code_ends(a: Tag, b: Tag, x: Seq<char>, y: Seq<char>) {
        lemma_tag_code_ends(a, b, x, y);
    }

    fn to_code(&self) -> (r: String) {
        match self {
            SignalClass::Unrecognized(s) => tag_to_code(self.index(), s.as_str()),
            _ => known_tag_to_code(self.index()),
        }
    }
}

/// The first declaration of a class is the one that counts.
pub proof fn law_first_declaration_counts(
    signals: Seq<CapabilitySignalModel>,
    class: Tag,
    i: int,
)
    requires
        0 <= i < signals.len(),
        signals[i].class == class,
        forall|j: int| 0 <= j < i ==> (#[trigger] signals[j]).class != class,
    ensures
        declared_state(signals, class) == signals[i].state,
        declared_observable(signals, class) <==> signals[i].state == known_tag(0),
    decreases signals.len(),
{
    if i > 0 {
        let rest = signals.drop_first();
        assert(signals[0].class != class);
        assert(rest[i - 1] == signals[i]);
        assert forall|j: int| 0 <= j < i - 1 implies (#[trigger] rest[j]).class != class by {
            assert(rest[j] == signals[j + 1]);
        }
        law_first_declaration_counts(rest, class, i - 1);
    }
}

/// Each state that is known is read back from how it is written.
pub proof fn law_states_read_back(i: int)
    requires
        0 <= i < 6,
    ensures
        SignalAvailability::of_tag(SignalAvailability::wire_text(known_tag(i))) == known_tag(i),
{
    reveal_strlit("available");
    reveal_strlit("unsupported");
    reveal_strlit("unavailable");
    reveal_strlit("redacted");
    reveal_strlit("collection_failed");
    reveal_strlit("unknown");
    assert("available"@.len() == 9);
    assert("unsupported"@.len() == 11 && "unsupported"@[2] == 's');
    assert("unavailable"@.len() == 11 && "unavailable"@[2] == 'a');
    assert("redacted"@.len() == 8);
    assert("collection_failed"@.len() == 17);
    assert("unknown"@.len() == 7);
}

/// Any other text is kept as it stands, and is none of the known states.
pub proof fn law_other_states_keep_their_text(tag: Seq<char>)
    requires
        forall|i: int| 0 <= i < 6 ==> tag != #[trigger] SignalAvailability::wire_text(known_tag(i)),
    ensures
        SignalAvailability::of_tag(tag) == (Tag { index: 6, text: tag }),
{
    assert(tag != SignalAvailability::wire_text(known_tag(0)));
    assert(tag != SignalAvailability::wire_text(known_tag(1)));
    assert(tag != SignalAvailability::wire_text(known_tag(2)));
    assert(tag != SignalAvailability::wire_text(known_tag(3)));
    assert(tag != SignalAvailability::wire_text(known_tag(4)));
    assert(tag != SignalAvailability::wire_text(known_tag(5)));
}

/// What is rebuilt from the booleans of an older payload: the six classes they
/// speak of are available where they are true and unknown where they are
/// false, and every other class is unknown.
pub proof fn law_legacy_booleans_leave_the_rest_unknown(w: RuntimeCapabilitiesWire, class: Tag)
    ensures
        ({
            let state = declared_state(legacy_signals(w), class);
            if (class == known_tag(0) && w.supports_pre_tool_use) || (class == known_tag(1)
                && w.supports_post_tool_use) || (class == known_tag(2)
                && w.supports_tool_response_capture) || (class == known_tag(4)
                && w.supports_session_stop_event) || (class == known_tag(5)
                && w.supports_subagent_lifecycle) || (class == known_tag(6)
                && w.supports_transcript_tail) {
                state == known_tag(0)
            } else {
                state == known_tag(5)
            }
        }),
        forall|i: int|
            0 <= i < legacy_signals(w).len() ==> (#[trigger] legacy_signals(w)[i]).detail is None,
{
    reveal_with_fuel(declared_state, 8);
}

} // verus!

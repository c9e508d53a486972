use fornax_types::capabilities::RuntimeCapabilitiesWire;
use fornax_types::order::SortedMap;
use fornax_types::{
    CapabilitySignal, LegacyCapabilitiesWire, Provider, RuntimeCapabilities, SignalAvailability,
    SignalClass, CAPABILITY_SCHEMA_VERSION,
};

fn caps_with(signals: Vec<CapabilitySignal>) -> RuntimeCapabilities {
    RuntimeCapabilities {
        schema_version: CAPABILITY_SCHEMA_VERSION,
        provider: Provider::Codex,
        signals,
        notes: SortedMap::new(),
    }
}

fn signal(class: SignalClass, state: SignalAvailability) -> CapabilitySignal {
    CapabilitySignal { class, state, detail: None }
}

fn bare_wire(provider: Provider) -> RuntimeCapabilitiesWire {
    RuntimeCapabilitiesWire {
        schema_version: 0,
        provider,
        signals: vec![],
        notes: SortedMap::new(),
        supports_pre_tool_use: false,
        supports_post_tool_use: false,
        supports_tool_response_capture: false,
        supports_session_stop_event: false,
        supports_transcript_tail: false,
        supports_subagent_lifecycle: false,
    }
}

fn legacy_wire() -> RuntimeCapabilitiesWire {
    RuntimeCapabilitiesWire {
        supports_pre_tool_use: false,
        supports_post_tool_use: true,
        supports_tool_response_capture: true,
        supports_session_stop_event: true,
        supports_transcript_tail: true,
        supports_subagent_lifecycle: false,
        ..bare_wire(Provider::Codex)
    }
}

#[test]
fn unrecognized_state_tag_round_trips_the_original_string() {
    let v = SignalAvailability::from_tag("quantum_entangled");
    assert_eq!(v, SignalAvailability::Unrecognized("quantum_entangled".to_string()));
    assert_eq!(v.wire_tag(), "quantum_entangled");
}

#[test]
fn every_canonical_state_tag_round_trips_to_its_named_variant() {
    let cases = [
        ("available", SignalAvailability::Available),
        ("unsupported", SignalAvailability::Unsupported),
        ("unavailable", SignalAvailability::Unavailable),
        ("redacted", SignalAvailability::Redacted),
        ("collection_failed", SignalAvailability::CollectionFailed),
        ("unknown", SignalAvailability::Unknown),
    ];
    for (tag, expected) in cases {
        let v = SignalAvailability::from_tag(tag);
        assert_eq!(v, expected, "tag {tag} did not parse to its named variant");
        assert_eq!(v.wire_tag(), tag);
    }
}

#[test]
fn from_tag_normalizes_canonical_and_unknown_tags() {
    assert_eq!(SignalAvailability::from_tag("available"), SignalAvailability::Available);
    assert_eq!(
        SignalAvailability::from_tag("something_new"),
        SignalAvailability::Unrecognized("something_new".to_string())
    );
}

#[test]
fn unrecognized_wrapping_a_canonical_tag_collapses_on_round_trip() {
    let constructed = SignalAvailability::Unrecognized("available".to_string());
    assert_ne!(constructed, SignalAvailability::Available);
    let back = SignalAvailability::from_tag(&constructed.wire_tag());
    assert_eq!(back, SignalAvailability::Available);
}

#[test]
fn legacy_flat_bool_payload_reconstructs_the_six_known_classes() {
    let mut w = legacy_wire();
    let notes = SortedMap::new().with("a".to_string(), "b".to_string());
    w.notes = notes.clone();
    let c = RuntimeCapabilities::from_wire(w);
    assert_eq!(c.schema_version, CAPABILITY_SCHEMA_VERSION);
    assert_eq!(c.state_of(&SignalClass::ToolInvocation), SignalAvailability::Unknown);
    assert!(c.is_observable(&SignalClass::ToolTrace));
    assert!(c.is_observable(&SignalClass::ToolResultPayload));
    assert!(c.is_observable(&SignalClass::SessionLifecycle));
    assert!(c.is_observable(&SignalClass::FinalResponse));
    assert_eq!(c.state_of(&SignalClass::SubagentLifecycle), SignalAvailability::Unknown);
    assert_eq!(c.state_of(&SignalClass::ProcessResult), SignalAvailability::Unknown);
    assert_eq!(c.notes, notes);
}

#[test]
fn rich_payload_with_a_future_class_and_future_state_parses_and_round_trips() {
    let mut w = bare_wire(Provider::ClaudeCode);
    w.schema_version = 2;
    w.signals = vec![
        signal(SignalClass::ToolTrace, SignalAvailability::Available),
        CapabilitySignal {
            class: SignalClass::ProcessResult,
            state: SignalAvailability::Unsupported,
            detail: Some("no literal exit code".to_string()),
        },
        signal(
            SignalClass::Unrecognized("neural_trace".to_string()),
            SignalAvailability::Unrecognized("quantum_pending".to_string()),
        ),
    ];
    let c = RuntimeCapabilities::from_wire(w.clone());
    assert_eq!(c.schema_version, 2);
    assert!(c.is_observable(&SignalClass::ToolTrace));
    assert_eq!(c.state_of(&SignalClass::ProcessResult), SignalAvailability::Unsupported);
    assert!(!c.is_observable(&SignalClass::Unrecognized("neural_trace".to_string())));
    assert_eq!(
        c.state_of(&SignalClass::Unrecognized("neural_trace".to_string())),
        SignalAvailability::Unrecognized("quantum_pending".to_string())
    );
    assert_eq!(c.signals, w.signals);
}

#[test]
fn signals_non_empty_is_authoritative_even_alongside_legacy_bools() {
    let mut w = bare_wire(Provider::Codex);
    w.signals = vec![signal(SignalClass::ToolInvocation, SignalAvailability::Available)];
    w.supports_post_tool_use = true;
    let c = RuntimeCapabilities::from_wire(w);
    assert!(c.is_observable(&SignalClass::ToolInvocation));
    assert_eq!(c.state_of(&SignalClass::ToolTrace), SignalAvailability::Unknown);
}

#[test]
fn missing_schema_version_normalizes_to_current() {
    let mut w = bare_wire(Provider::Codex);
    w.supports_pre_tool_use = true;
    let c = RuntimeCapabilities::from_wire(w);
    assert_eq!(c.schema_version, CAPABILITY_SCHEMA_VERSION);
}

#[test]
fn duplicate_class_declaration_first_wins() {
    let c = caps_with(vec![
        signal(SignalClass::ToolTrace, SignalAvailability::Available),
        signal(SignalClass::ToolTrace, SignalAvailability::Redacted),
    ]);
    assert_eq!(c.state_of(&SignalClass::ToolTrace), SignalAvailability::Available);
}

#[test]
fn is_observable_is_true_only_for_available_across_every_state() {
    let states = [
        SignalAvailability::Available,
        SignalAvailability::Unsupported,
        SignalAvailability::Unavailable,
        SignalAvailability::Redacted,
        SignalAvailability::CollectionFailed,
        SignalAvailability::Unknown,
        SignalAvailability::Unrecognized("future_state".to_string()),
    ];
    for state in states {
        let is_available = state == SignalAvailability::Available;
        let c = caps_with(vec![signal(SignalClass::ToolTrace, state.clone())]);
        assert_eq!(
            c.is_observable(&SignalClass::ToolTrace),
            is_available,
            "state {state:?} should be observable only if Available"
        );
    }
}

#[test]
fn absent_class_reads_as_unknown_not_unsupported() {
    let c = caps_with(vec![]);
    assert_eq!(c.state_of(&SignalClass::ProcessResult), SignalAvailability::Unknown);
    assert!(!c.is_observable(&SignalClass::ProcessResult));
}

#[test]
fn legacy_projection_reads_each_of_the_six_classes() {
    let c = caps_with(vec![
        signal(SignalClass::ToolInvocation, SignalAvailability::Unsupported),
        signal(SignalClass::ToolTrace, SignalAvailability::Available),
        signal(SignalClass::ToolResultPayload, SignalAvailability::Available),
        signal(SignalClass::SessionLifecycle, SignalAvailability::Available),
        signal(SignalClass::FinalResponse, SignalAvailability::Available),
        signal(SignalClass::SubagentLifecycle, SignalAvailability::Unsupported),
    ]);
    let dto = LegacyCapabilitiesWire::from_capabilities(&c);
    assert_eq!(dto.provider, Provider::Codex);
    assert!(!dto.supports_pre_tool_use);
    assert!(dto.supports_post_tool_use);
    assert!(dto.supports_tool_response_capture);
    assert!(dto.supports_session_stop_event);
    assert!(dto.supports_transcript_tail);
    assert!(!dto.supports_subagent_lifecycle);
}

#[test]
fn legacy_inbound_to_domain_to_legacy_projection_is_bit_identical_on_all_six_bools() {
    let orig = legacy_wire();
    let c = RuntimeCapabilities::from_wire(orig.clone());
    let projected = LegacyCapabilitiesWire::from_capabilities(&c);
    assert_eq!(orig.supports_pre_tool_use, projected.supports_pre_tool_use);
    assert_eq!(orig.supports_post_tool_use, projected.supports_post_tool_use);
    assert_eq!(orig.supports_tool_response_capture, projected.supports_tool_response_capture);
    assert_eq!(orig.supports_session_stop_event, projected.supports_session_stop_event);
    assert_eq!(orig.supports_transcript_tail, projected.supports_transcript_tail);
    assert_eq!(orig.supports_subagent_lifecycle, projected.supports_subagent_lifecycle);
}

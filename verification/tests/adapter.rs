use fornax_types::capabilities::{CapabilityProbe, RuntimeCapabilities, CAPABILITY_SCHEMA_VERSION};
use fornax_types::order::SortedMap;
use fornax_types::{AgentAdapter, Claim, IngestMessage, Json, NormalizationOutcome, Provider, Uuid};

struct EchoAdapter {
    calls: u32,
}

impl CapabilityProbe for EchoAdapter {
    fn probe(&self) -> RuntimeCapabilities {
        RuntimeCapabilities {
            schema_version: CAPABILITY_SCHEMA_VERSION,
            provider: Provider::Codex,
            signals: vec![],
            notes: SortedMap::new(),
        }
    }
}

impl AgentAdapter for EchoAdapter {
    fn provider(&self) -> Provider {
        Provider::Codex
    }

    fn adapter_version(&self) -> &'static str {
        "echo-0.0.1"
    }

    fn normalize(&mut self, _session_hint: &str, native: &Json) -> NormalizationOutcome {
        self.calls += 1;
        match native.get("type").and_then(|v| v.as_str()) {
            Some("known_but_skipped") => {
                NormalizationOutcome::Ignored { reason: "test fixture: deliberately uninteresting" }
            }
            Some(_) | None => NormalizationOutcome::Unrecognized {
                discriminator: native
                    .get("type")
                    .and_then(|v| v.as_str())
                    .unwrap_or("<missing type>")
                    .to_string(),
            },
        }
    }
}

fn record(kind: &str) -> Json {
    Json::Object(vec![("type".to_string(), Json::Text(kind.to_string()))])
}

#[test]
fn trait_object_composes_probe_and_normalize() {
    let mut adapter: Box<dyn AgentAdapter> = Box::new(EchoAdapter { calls: 0 });
    assert_eq!(adapter.provider(), Provider::Codex);
    let caps = adapter.probe();
    assert_eq!(caps.provider, Provider::Codex);

    let out = adapter.normalize("sess-1", &record("known_but_skipped"));
    match out {
        NormalizationOutcome::Ignored { reason } => {
            assert_eq!(reason, "test fixture: deliberately uninteresting")
        }
        other => panic!("expected Ignored, got {other:?}"),
    }

    let out = adapter.normalize("sess-1", &record("something_new"));
    match out {
        NormalizationOutcome::Unrecognized { discriminator } => {
            assert_eq!(discriminator, "something_new")
        }
        other => panic!("expected Unrecognized, got {other:?}"),
    }
}

#[test]
fn into_messages_is_empty_for_ignored_and_unrecognized() {
    assert!(NormalizationOutcome::Ignored { reason: "x" }.into_messages().is_empty());
    assert!(NormalizationOutcome::Unrecognized { discriminator: "x".to_string() }
        .into_messages()
        .is_empty());
}

#[test]
fn into_messages_hands_on_what_was_recognised() {
    let claim = Claim {
        id: Uuid::from_u128(1),
        session_id: "s".to_string(),
        source_event_id: Uuid::from_u128(2),
        text: "tests passed".to_string(),
        subject: "tests_passed".to_string(),
        claimed_at: "2026-01-01T00:00:00Z".to_string(),
    };
    let messages = vec![IngestMessage::Claim(claim)];
    assert_eq!(NormalizationOutcome::Messages(messages.clone()).into_messages(), messages);
}

use fornax_types::extension::ExtensionEnvelopeWire;
use fornax_types::order::SortedMap;
use fornax_types::{
    ContentClass, ExtensionEnvelope, Json, JsonNumber, Provider, EXTENSION_SCHEMA_VERSION,
    SUPPORTED_EXTENSION_SCHEMA_VERSIONS,
};

fn object(name: &str, value: Json) -> Json {
    Json::Object(vec![(name.to_string(), value)])
}

#[test]
fn extension_unknown_top_level_field_on_a_compatible_version_survives_round_trip() {
    let unknown = SortedMap::new()
        .with("retention_hint_days".to_string(), Json::Number(JsonNumber::Positive(30)));
    let env = ExtensionEnvelope::try_from_wire(ExtensionEnvelopeWire {
        schema_version: 1,
        provider: Provider::Codex,
        adapter_version: "codex-adapter-0.1.0".to_string(),
        content_class: ContentClass::RawProviderMetadata,
        fields: object("blob", Json::Text("opaque".to_string())),
        unknown: unknown.clone(),
    })
    .unwrap();
    assert_eq!(env.schema_version, 1);
    assert_eq!(env.unknown, unknown);
    assert_eq!(env.fields.get("blob").and_then(|v| v.as_str()), Some("opaque"));
}

#[test]
fn extension_truly_incompatible_schema_version_fails_explicitly_rather_than_silently_parsing() {
    let err = ExtensionEnvelope::try_from_wire(ExtensionEnvelopeWire {
        schema_version: 999,
        provider: Provider::Codex,
        adapter_version: "codex-adapter-0.1.0".to_string(),
        content_class: ContentClass::ToolTelemetry,
        fields: Json::Object(vec![]),
        unknown: SortedMap::new(),
    })
    .unwrap_err();
    assert!(
        err.contains("incompatible"),
        "expected an explicit incompatibility error, got: {err}"
    );
    assert_eq!(
        err,
        "incompatible ExtensionEnvelope schema_version 999: this binary supports [1, 2]"
    );
}

#[test]
fn historical_v1_envelope_fixture_still_reads_correctly() {
    let count = Json::Number(JsonNumber::Positive(42));
    let env = ExtensionEnvelope::try_from_wire(ExtensionEnvelopeWire {
        schema_version: 1,
        provider: Provider::ClaudeCode,
        adapter_version: "adapter-0.1.0".to_string(),
        content_class: ContentClass::ToolTelemetry,
        fields: object("cache_read_tokens", count.clone()),
        unknown: SortedMap::new(),
    })
    .unwrap();
    assert_eq!(env.schema_version, 1);
    assert_eq!(env.content_class, ContentClass::ToolTelemetry);
    assert_eq!(env.fields.get("cache_read_tokens"), Some(&count));
    assert!(env.unknown.is_empty());
}

#[test]
fn historical_v2_envelope_fixture_reads_correctly_and_is_the_current_default() {
    let env = ExtensionEnvelope::try_from_wire(ExtensionEnvelopeWire {
        schema_version: 2,
        provider: Provider::ClaudeCode,
        adapter_version: "adapter-0.3.0".to_string(),
        content_class: ContentClass::ExperimentalSignal,
        fields: object("trial_signal", Json::Bool(true)),
        unknown: SortedMap::new(),
    })
    .unwrap();
    assert_eq!(env.schema_version, 2);
    assert_eq!(env.schema_version, EXTENSION_SCHEMA_VERSION);
    assert_eq!(env.content_class, ContentClass::ExperimentalSignal);
}

#[test]
fn both_historical_versions_are_members_of_the_supported_set() {
    assert!(SUPPORTED_EXTENSION_SCHEMA_VERSIONS.contains(&1));
    assert!(SUPPORTED_EXTENSION_SCHEMA_VERSIONS.contains(&2));
}

#[test]
fn new_envelope_carries_the_current_version_and_no_unknown_members() {
    let fresh = ExtensionEnvelope::new(
        Provider::Codex,
        "codex-adapter-0.2.0".to_string(),
        ContentClass::ExperimentalSignal,
        Json::Bool(true),
    );
    assert_eq!(fresh.schema_version, EXTENSION_SCHEMA_VERSION);
    assert_eq!(fresh.provider, Provider::Codex);
    assert_eq!(fresh.adapter_version, "codex-adapter-0.2.0");
    assert_eq!(fresh.fields, Json::Bool(true));
    assert!(fresh.unknown.is_empty());
}

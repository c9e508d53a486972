use fornax_types::policy::local_user_layer_from_values;
use fornax_types::privacy::{CLOUD_SYNC_ENV_VAR, LONGITUDINAL_ENV_VAR};
use fornax_types::{
    cloud_sync_allowed, longitudinal_reliability_collection_allowed, DiagnosticCode,
    DiagnosticSeverity, PolicyContent, SensorDisableConfig,
};

#[test]
fn cloud_sync_gate_defaults_closed_and_requires_an_explicit_true_value() {
    assert!(!cloud_sync_allowed(None), "must default to disabled when unset");
    assert!(cloud_sync_allowed(Some("1")));
    assert!(cloud_sync_allowed(Some("true")));
    assert!(cloud_sync_allowed(Some("TRUE")));
    assert!(!cloud_sync_allowed(Some("yes")));
    assert!(!cloud_sync_allowed(Some("")));
    assert!(!cloud_sync_allowed(Some("0")));
}

#[test]
fn longitudinal_collection_gate_defaults_closed_and_requires_an_explicit_true_value() {
    assert!(!longitudinal_reliability_collection_allowed(None));
    assert!(longitudinal_reliability_collection_allowed(Some("1")));
    assert!(longitudinal_reliability_collection_allowed(Some("true")));
    assert!(!longitudinal_reliability_collection_allowed(Some("yes")));
}

#[test]
fn gate_variables_have_their_names() {
    assert_eq!(CLOUD_SYNC_ENV_VAR, "FORNAX_CLOUD_SYNC_ENABLED");
    assert_eq!(LONGITUDINAL_ENV_VAR, "FORNAX_LONGITUDINAL_COLLECTION_ENABLED");
}

#[test]
fn unset_settings_make_a_layer_without_opinions() {
    let (content, diagnostics) =
        local_user_layer_from_values(None, None, &SensorDisableConfig::empty());
    assert_eq!(content, PolicyContent::default());
    assert!(diagnostics.is_empty());
}

#[test]
fn settings_are_read_into_the_fields_they_are_about() {
    let sensors =
        SensorDisableConfig::from_names(&vec!["b".to_string(), "a".to_string(), "b".to_string()]);
    let (content, diagnostics) = local_user_layer_from_values(Some("True"), Some("1"), &sensors);
    assert_eq!(content.egress.cloud_sync_allowed, Some(true));
    assert_eq!(content.collection.longitudinal_aggregation_allowed, Some(true));
    assert_eq!(
        content.sensors.disabled.unwrap().as_vec(),
        &vec!["a".to_string(), "b".to_string()]
    );
    assert_eq!(content.egress.allowed_content, None);
    assert!(diagnostics.is_empty());
}

#[test]
fn a_value_that_opens_no_gate_closes_it_with_a_warning() {
    let (content, diagnostics) =
        local_user_layer_from_values(Some("yes \"please\""), Some("0"), &SensorDisableConfig::empty());
    assert_eq!(content.egress.cloud_sync_allowed, Some(false));
    assert_eq!(content.collection.longitudinal_aggregation_allowed, Some(false));
    assert_eq!(diagnostics.len(), 2);
    for d in &diagnostics {
        assert_eq!(d.code, DiagnosticCode::UnrecognizedEnvValue);
        assert_eq!(d.severity, DiagnosticSeverity::Warning);
    }
    assert_eq!(
        diagnostics[0].message,
        "FORNAX_CLOUD_SYNC_ENABLED=\"yes \\\"please\\\"\" is not \"1\" or \"true\"; treating as disabled"
    );
    assert!(diagnostics[1].message.starts_with("FORNAX_LONGITUDINAL_COLLECTION_ENABLED=\"0\""));
}

use std::collections::HashSet;

use fornax_types::calibration::{CalibrationProvenance, CALIBRATION_SCHEMA_VERSION};
use fornax_types::order::SortedSet;

fn provenance() -> CalibrationProvenance {
    CalibrationProvenance {
        schema_version: CALIBRATION_SCHEMA_VERSION,
        provider: "claude_code".to_string(),
        adapter_version: Some("adapter-0.3.0".to_string()),
        capability_schema_version: 1,
        capability_fingerprint: vec![("tool_invocation".to_string(), "available".to_string())],
        fusion_policy_name: "deterministic_baseline_v1".to_string(),
        fusion_policy_version: 2,
        decision_policy_name: "default_risk_policy_v1".to_string(),
        decision_policy_version: 1,
        reliability_policy_version: 1,
        disabled_sensors: vec!["sensor_b".to_string(), "sensor_a".to_string()],
        active_policy_revision_digest: None,
        model_version: None,
        model_family: None,
    }
}

#[test]
fn model_version_is_none_unless_explicitly_supplied() {
    let p = provenance();
    assert_eq!(p.model_version, None);
    assert_eq!(p.model_family, None);
}

#[test]
fn normalize_sorts_and_dedupes_disabled_sensors() {
    let mut p = provenance();
    p.disabled_sensors = vec!["b".into(), "a".into(), "a".into()];
    let p = p.normalize();
    assert_eq!(p.disabled_sensors, vec!["a".to_string(), "b".to_string()]);
}

#[test]
fn normalize_touches_nothing_else_and_forgets_the_order() {
    let mut shuffled = provenance();
    shuffled.disabled_sensors = vec!["sensor_a".into(), "sensor_b".into(), "sensor_a".into()];
    assert_ne!(shuffled, provenance());
    assert_eq!(shuffled.normalize(), provenance().normalize());
    let normal = provenance().normalize();
    assert_eq!(normal.adapter_version, provenance().adapter_version);
    assert_eq!(normal.capability_fingerprint, provenance().capability_fingerprint);
}

#[test]
fn disabled_sensors_from_a_hash_set_is_sorted() {
    let mut set = HashSet::new();
    set.insert("zeta".to_string());
    set.insert("alpha".to_string());
    let names: Vec<String> = set.into_iter().collect();
    assert_eq!(
        CalibrationProvenance::disabled_sensors_from(&SortedSet::from_vec(&names)),
        vec!["alpha".to_string(), "zeta".to_string()]
    );
}

use fornax_types::policy::trust_store::{
    choose_trust_store, TrustStoreSource, POLICY_TRUST_STORE_ENV_VAR, POLICY_TRUST_STORE_FILE,
};
use fornax_types::policy::{SignatureAlgorithm, TrustStoreError, TrustedKey};
use fornax_types::{
    resolve_trust_store, DiagnosticCode, DiagnosticSeverity, KeyId, TrustedVerificationKeys,
};

const ZERO_KEY: &str = "AAAAAAAAAAAAAAAAAAAAAAAAAAAAAAAAAAAAAAAAAAA=";

fn key(id: &str, material: &str) -> TrustedKey {
    TrustedKey {
        key_id: KeyId(id.to_string()),
        algorithm: SignatureAlgorithm::Ed25519,
        public_key_b64: material.to_string(),
        not_before: None,
        not_after: None,
        comment: None,
    }
}

fn store(keys: Vec<TrustedKey>) -> TrustedVerificationKeys {
    TrustedVerificationKeys { schema_version: 1, keys }
}

fn home() -> String {
    "/home/u/.fornax/policy-trust.json".to_string()
}

#[test]
fn no_env_var_no_file_yields_none_and_a_diagnostic() {
    let source = choose_trust_store(None, home(), false);
    assert_eq!(source, TrustStoreSource::Absent { path: home() });
    let (keys, diagnostics) = resolve_trust_store(source, Err(String::new()));
    assert!(keys.is_none());
    assert!(diagnostics.iter().any(|d| d.code == DiagnosticCode::TrustStoreUnavailable));
    assert_eq!(
        diagnostics[0].message,
        "no trust store configured: set FORNAX_POLICY_TRUST_STORE or create /home/u/.fornax/policy-trust.json"
    );
    assert_eq!(diagnostics[0].severity, DiagnosticSeverity::Warning);
}

#[test]
fn malformed_default_file_yields_none_and_a_diagnostic_never_a_panic() {
    let source = choose_trust_store(None, home(), true);
    let (keys, diagnostics) =
        resolve_trust_store(source, Ok(Err("expected ident at line 1 column 2".to_string())));
    assert!(keys.is_none());
    assert!(diagnostics.iter().any(|d| d.code == DiagnosticCode::TrustStoreUnavailable));
    assert_eq!(
        diagnostics[0].message,
        "/home/u/.fornax/policy-trust.json could not be loaded: trust store is malformed: expected ident at line 1 column 2"
    );
}

#[test]
fn valid_default_file_is_loaded() {
    let source = choose_trust_store(None, home(), true);
    let (keys, diagnostics) =
        resolve_trust_store(source, Ok(Ok(store(vec![key("k1", ZERO_KEY)]))));
    assert!(keys.is_some());
    assert!(diagnostics.is_empty());
    assert_eq!(keys.unwrap().get(&KeyId("k1".to_string())), Some(&key("k1", ZERO_KEY)));
}

#[test]
fn env_var_takes_precedence_over_default_file() {
    let source = choose_trust_store(Some("/tmp/trust.json".to_string()), home(), true);
    assert_eq!(source, TrustStoreSource::Configured { path: "/tmp/trust.json".to_string() });
    let (keys, _diagnostics) =
        resolve_trust_store(source, Ok(Ok(store(vec![key("k1", ZERO_KEY)]))));
    assert!(keys.is_some(), "env var path must be used, not the malformed default file");
}

#[test]
fn an_unreadable_configured_store_names_the_variable_and_the_path() {
    let source = choose_trust_store(Some("/tmp/a \"b\".json".to_string()), home(), true);
    let (keys, diagnostics) = resolve_trust_store(source, Err("No such file".to_string()));
    assert!(keys.is_none());
    assert_eq!(diagnostics.len(), 1);
    assert_eq!(
        diagnostics[0].message,
        "FORNAX_POLICY_TRUST_STORE=\"/tmp/a \\\"b\\\".json\" could not be loaded: No such file"
    );
}

#[test]
fn names_of_the_variable_and_the_file() {
    assert_eq!(POLICY_TRUST_STORE_ENV_VAR, "FORNAX_POLICY_TRUST_STORE");
    assert_eq!(POLICY_TRUST_STORE_FILE, "policy-trust.json");
}

#[test]
fn stores_are_refused_for_each_problem() {
    let load = |keys: Vec<TrustedKey>| TrustedVerificationKeys::load(Ok(store(keys)));
    assert_eq!(load(vec![]), Err(TrustStoreError::Empty));
    assert_eq!(
        load(vec![key("k1", "not base64!")]),
        Err(TrustStoreError::MalformedKey { key_id: KeyId("k1".to_string()) })
    );
    assert_eq!(
        load(vec![key("k1", "AAAA")]),
        Err(TrustStoreError::MalformedKey { key_id: KeyId("k1".to_string()) })
    );
    let mut later = key("k1", ZERO_KEY);
    later.comment = Some("differs".to_string());
    assert_eq!(
        load(vec![key("k1", ZERO_KEY), later]),
        Err(TrustStoreError::DuplicateKeyId { key_id: KeyId("k1".to_string()) })
    );
    assert!(load(vec![key("k1", ZERO_KEY), key("k1", ZERO_KEY)]).is_ok());
    let mut dated = key("k1", ZERO_KEY);
    dated.not_before = Some("soon".to_string());
    let err = load(vec![dated]).unwrap_err();
    assert_eq!(
        err.message(),
        "trust store is malformed: key_id KeyId(\"k1\") has a malformed not_before timestamp: \"soon\""
    );
    assert_eq!(TrustStoreError::Empty.message(), "trust store contains no keys");
    assert_eq!(
        TrustStoreError::MalformedKey { key_id: KeyId("k1".to_string()) }.message(),
        "key_id KeyId(\"k1\") has malformed key bytes"
    );
}

//! The local user's settings as a policy layer.
use vstd::prelude::*;

use crate::model::{lemma_deep_push, Deep};
use crate::policy::content::{
    silent_content, CacheScope, CollectionScope, CollectionScopeModel, EgressScope,
    EgressScopeModel, EnforcementScope, PolicyContent, PolicyContentModel, SensorScope,
    SensorScopeModel,
};
use crate::policy::diagnostics::{
    plain_diagnostic, DiagnosticCode, DiagnosticSeverity, PolicyDiagnostic, PolicyDiagnosticModel,
};
use crate::privacy::{gate_opened, opens_gate};
use crate::sensor_config::SensorDisableConfig;
use crate::text::{quote_debug, str_debug};

verus! {

/// What a gate variable says: nothing where it is unset.
pub open spec fn gate_value(raw: Option<Seq<char>>) -> Option<bool> {
    match raw {
        None => None,
        Some(v) => Some(opens_gate(v)),
    }
}

/// The warning about a gate variable that is set to neither of the values
/// that open it.
pub open spec fn gate_warning(name: Seq<char>, value: Seq<char>) -> PolicyDiagnosticModel {
    plain_diagnostic(
        DiagnosticCode::UnrecognizedEnvValue,
        DiagnosticSeverity::Warning,
        name + "="@ + str_debug(value) + " is not \"1\" or \"true\"; treating as disabled"@,
        "set the variable to \"1\" or \"true\" to enable it, or unset it entirely"@,
    )
}

/// The warnings about a gate variable.
pub open spec fn gate_warnings(raw: Option<Seq<char>>, name: Seq<char>) -> Seq<
    PolicyDiagnosticModel,
> {
    match raw {
        Some(v) if !opens_gate(v) => seq![gate_warning(name, v)],
        _ => Seq::empty(),
    }
}

fn parse_bool_gate(
    raw: Option<&str>,
    env_var_name: &str,
    diagnostics: &mut Vec<PolicyDiagnostic>,
) -> (r: Option<bool>)
    ensures
        r == gate_value(
            match raw {
                Some(v) => Some(v@),
                None => None,
            },
        ),
        final(diagnostics).deep_view() == old(diagnostics).deep_view() + gate_warnings(
            match raw {
                Some(v) => Some(v@),
                None => None,
            },
            env_var_name@,
        ),
{
    match raw {
        None => {
            assert(diagnostics.deep_view() =~= old(diagnostics).deep_view() + Seq::<
                PolicyDiagnosticModel,
            >::empty());
            None
        },
        Some(v) => {
            if gate_opened(v) {
                assert(diagnostics.deep_view() =~= old(diagnostics).deep_view() + Seq::<
                    PolicyDiagnosticModel,
                >::empty());
                return Some(true);
            }
            let message = env_var_name.to_owned().concat("=").concat(
                quote_debug(v).as_str(),
            ).concat(" is not \"1\" or \"true\"; treating as disabled");
            let warning = PolicyDiagnostic::new(
                DiagnosticCode::UnrecognizedEnvValue,
                DiagnosticSeverity::Warning,
                message,
                "set the variable to \"1\" or \"true\" to enable it, or unset it entirely",
            );
            let ghost before = *diagnostics;
            diagnostics.push(warning);
            proof {
                lemma_deep_push(before, *diagnostics, warning);
                assert(before.deep_view().push(warning.deep_view()) =~= before.deep_view() + seq![
                    warning.deep_view(),
                ]);
            }
            Some(false)
        },
    }
}

/// The layer a local user's settings make. It speaks only to what the user
/// has set; disabling no sensor is saying nothing about sensors.
pub open spec fn local_layer(
    cloud_sync: Option<Seq<char>>,
    longitudinal: Option<Seq<char>>,
    disabled: Set<Seq<char>>,
) -> PolicyContentModel {
    PolicyContentModel {
        collection: CollectionScopeModel {
            longitudinal_aggregation_allowed: gate_value(longitudinal),
        },
        egress: EgressScopeModel {
            cloud_sync_allowed: gate_value(cloud_sync),
            redaction_profile: None,
            allowed_content: None,
        },
        sensors: SensorScopeModel {
            disabled: if disabled == Set::<Seq<char>>::empty() {
                None
            } else {
                Some(disabled)
            },
            required_signals: None,
        },
        ..silent_content()
    }
}

/// The view of an optional piece of text.
pub open spec fn optional_text(raw: Option<&str>) -> Option<Seq<char>> {
    match raw {
        Some(v) => Some(v@),
        None => None,
    }
}

/// Reads the local user's settings as a policy layer, given the values of the
/// two gate variables where they are set. A value that opens no gate closes
/// it, with a warning.
pub fn local_user_layer_from_values(
    cloud_sync_env: Option<&str>,
    longitudinal_env: Option<&str>,
    sensor_config: &SensorDisableConfig,
) -> (r: (PolicyContent, Vec<PolicyDiagnostic>))
    ensures
        r.0.deep_view() == local_layer(
            optional_text(cloud_sync_env),
            optional_text(longitudinal_env),
            sensor_config.deep_view(),
        ),
        r.1.deep_view() == gate_warnings(
            optional_text(cloud_sync_env),
            "FORNAX_CLOUD_SYNC_ENABLED"@,
        ) + gate_warnings(
            optional_text(longitudinal_env),
            "FORNAX_LONGITUDINAL_COLLECTION_ENABLED"@,
        ),
{
    let mut diagnostics: Vec<PolicyDiagnostic> = Vec::new();
    assert(diagnostics.deep_view() =~= Seq::<PolicyDiagnosticModel>::empty());
    let cloud_sync_allowed = parse_bool_gate(
        cloud_sync_env,
        "FORNAX_CLOUD_SYNC_ENABLED",
        &mut diagnostics,
    );
    let longitudinal_aggregation_allowed = parse_bool_gate(
        longitudinal_env,
        "FORNAX_LONGITUDINAL_COLLECTION_ENABLED",
        &mut diagnostics,
    );
    let names = sensor_config.disabled_names();
    let disabled = if names.is_empty() {
        None
    } else {
        Some(names.deep_clone())
    };
    let content = PolicyContent {
        collection: CollectionScope { longitudinal_aggregation_allowed },
        egress: EgressScope { cloud_sync_allowed, redaction_profile: None, allowed_content: None },
        sensors: SensorScope { disabled, required_signals: None },
        enforcement: EnforcementScope { rules: None },
        cache: CacheScope { max_age_seconds_by_risk: None, offline_grace_seconds: None },
    };
    (content, diagnostics)
}

/// A user who has set nothing has no opinion on anything.
pub proof fn law_unset_settings_have_no_opinion()
    ensures
        local_layer(None, None, Set::empty()) == silent_content(),
{
}

/// What a user's own settings say: whether to sync and whether to aggregate,
/// each only where its variable is set, and which sensors to disable, where
/// there are any. They say nothing else.
pub proof fn law_settings_say_only_what_is_set(
    cloud_sync: Option<Seq<char>>,
    longitudinal: Option<Seq<char>>,
    disabled: Set<Seq<char>>,
)
    ensures
        ({
            let c = local_layer(cloud_sync, longitudinal, disabled);
            &&& c.egress.cloud_sync_allowed is Some <==> cloud_sync is Some
            &&& c.egress.cloud_sync_allowed == Some(true) <==> (cloud_sync matches Some(v)
                && opens_gate(v))
            &&& c.collection.longitudinal_aggregation_allowed is Some <==> longitudinal is Some
            &&& c.collection.longitudinal_aggregation_allowed == Some(true) <==> (longitudinal
                matches Some(v) && opens_gate(v))
            &&& c.sensors.disabled matches Some(s) ==> s == disabled
            &&& c.sensors.disabled is Some <==> exists|s: Seq<char>| #[trigger] disabled.contains(s)
            &&& c.egress.redaction_profile is None
            &&& c.egress.allowed_content is None
            &&& c.sensors.required_signals is None
            &&& c.enforcement.rules is None
            &&& c.cache.max_age_seconds_by_risk is None
            &&& c.cache.offline_grace_seconds is None
        }),
{
    if forall|s: Seq<char>| !#[trigger] disabled.contains(s) {
        assert(disabled =~= Set::<Seq<char>>::empty());
    }
}

/// A variable that is set but opens no gate is warned about, once; one that is
/// unset or opens its gate is not.
pub proof fn law_unread_settings_are_warned_about(raw: Option<Seq<char>>, name: Seq<char>)
    ensures
        gate_warnings(raw, name).len() == (if raw is Some && !opens_gate(raw.unwrap()) {
            1nat
        } else {
            0nat
        }),
        forall|i: int|
            0 <= i < gate_warnings(raw, name).len() ==> (#[trigger] gate_warnings(raw, name)[i]).code
                == DiagnosticCode::UnrecognizedEnvValue && gate_warnings(raw, name)[i].severity
                == DiagnosticSeverity::Warning,
{
}

} // verus!

//! Where the trusted keys come from: a configured path first, then the store
//! in the home directory. No key is built in, and a store that cannot be
//! loaded is never a reason to stop.
use vstd::prelude::*;

use crate::policy::bundle::{
    key_id_debug, store_problem, KeyId, TrustStoreError, TrustStoreErrorModel,
    TrustedVerificationKeys,
};
use crate::policy::bundle_laws::{law_sound_stores_have_only_sound_keys, spoils};
use crate::policy::diagnostics::{
    plain_diagnostic, DiagnosticCode, DiagnosticSeverity, PolicyDiagnostic, PolicyDiagnosticModel,
};
use crate::text::{quote_debug, str_debug};

verus! {

/// The variable that names a trust store.
pub const POLICY_TRUST_STORE_ENV_VAR: &'static str = "FORNAX_POLICY_TRUST_STORE";

/// The name of the trust store in the home directory.
pub const POLICY_TRUST_STORE_FILE: &'static str = "policy-trust.json";

/// Which file to read trusted keys from.
#[derive(Debug, Clone, PartialEq, Eq)]
pub enum TrustStoreSource {
    /// The path [`POLICY_TRUST_STORE_ENV_VAR`] is set to.
    Configured { path: String },
    /// The store in the home directory.
    Home { path: String },
    /// There is none; `path` is where the home directory's would be.
    Absent { path: String },
}

/// Chooses the file: the configured one if there is one, whether or not the
/// home directory has a store.
pub fn choose_trust_store(configured: Option<String>, home_path: String, home_exists: bool) -> (r:
    TrustStoreSource)
    ensures
        r == match configured {
            Some(path) => TrustStoreSource::Configured { path },
            None => if home_exists {
                TrustStoreSource::Home { path: home_path }
            } else {
                TrustStoreSource::Absent { path: home_path }
            },
        },
{
    match configured {
        Some(path) => TrustStoreSource::Configured { path },
        None => if home_exists {
            TrustStoreSource::Home { path: home_path }
        } else {
            TrustStoreSource::Absent { path: home_path }
        },
    }
}

/// What a trust store error says.
pub open spec fn trust_store_error_text(e: TrustStoreErrorModel) -> Seq<char> {
    match e {
        TrustStoreErrorModel::Malformed { detail } => "trust store is malformed: "@ + detail,
        TrustStoreErrorModel::DuplicateKeyId { key_id } => "key_id "@ + key_id_debug(key_id)
            + " appears more than once with differing key material"@,
        TrustStoreErrorModel::MalformedKey { key_id } => "key_id "@ + key_id_debug(key_id)
            + " has malformed key bytes"@,
        TrustStoreErrorModel::Empty => "trust store contains no keys"@,
    }
}

fn spell_key_id(key_id: &KeyId) -> (r: String)
    ensures
        r@ == key_id_debug(key_id.deep_view()),
{
    "KeyId(".to_owned().concat(quote_debug(key_id.0.as_str()).as_str()).concat(")")
}

impl TrustStoreError {
    /// What this error says.
    pub fn message(&self) -> (r: String)
        ensures
            r@ == trust_store_error_text(self.deep_view()),
    {
        match self {
            TrustStoreError::Malformed { detail } => "trust store is malformed: ".to_owned().concat(
                detail.as_str(),
            ),
            TrustStoreError::DuplicateKeyId { key_id } => "key_id ".to_owned().concat(
                spell_key_id(key_id).as_str(),
            ).concat(" appears more than once with differing key material"),
            TrustStoreError::MalformedKey { key_id } => "key_id ".to_owned().concat(
                spell_key_id(key_id).as_str(),
            ).concat(" has malformed key bytes"),
            TrustStoreError::Empty => "trust store contains no keys".to_owned(),
        }
    }
}

/// What reading a store gave: an error of the read, an error of the parse, or
/// the parsed store.
pub type StoreContents = Result<Result<TrustedVerificationKeys, String>, String>;

/// Why the contents of a store give no keys.
pub open spec fn contents_problem(contents: StoreContents) -> Option<Seq<char>> {
    match contents {
        Err(detail) => Some(detail@),
        Ok(Err(detail)) => Some(
            trust_store_error_text(TrustStoreErrorModel::Malformed { detail: detail@ }),
        ),
        Ok(Ok(store)) => if store.keys@.len() == 0 {
            Some(trust_store_error_text(TrustStoreErrorModel::Empty))
        } else {
            match store_problem(store.keys.deep_view(), 0) {
                Some(e) => Some(trust_store_error_text(e)),
                None => None,
            }
        },
    }
}

/// The warning that there are no trusted keys.
pub open spec fn unavailable(detail: Seq<char>) -> PolicyDiagnosticModel {
    plain_diagnostic(
        DiagnosticCode::TrustStoreUnavailable,
        DiagnosticSeverity::Warning,
        detail,
        "provide a valid trust store via FORNAX_POLICY_TRUST_STORE or <home>/policy-trust.json to allow policy bundle activation"@,
    )
}

fn unavailable_diagnostic(detail: String) -> (r: PolicyDiagnostic)
    ensures
        r.deep_view() == unavailable(detail@),
{
    PolicyDiagnostic::new(
        DiagnosticCode::TrustStoreUnavailable,
        DiagnosticSeverity::Warning,
        detail,
        "provide a valid trust store via FORNAX_POLICY_TRUST_STORE or <home>/policy-trust.json to allow policy bundle activation",
    )
}

/// The problem with a source, told with where it comes from.
pub open spec fn source_problem(source: TrustStoreSource, contents: StoreContents) -> Option<
    Seq<char>,
> {
    match source {
        TrustStoreSource::Configured { path } => match contents_problem(contents) {
            Some(detail) => Some(
                "FORNAX_POLICY_TRUST_STORE="@ + str_debug(path@) + " could not be loaded: "@
                    + detail,
            ),
            None => None,
        },
        TrustStoreSource::Home { path } => match contents_problem(contents) {
            Some(detail) => Some(path@ + " could not be loaded: "@ + detail),
            None => None,
        },
        TrustStoreSource::Absent { path } => Some(
            "no trust store configured: set FORNAX_POLICY_TRUST_STORE or create "@ + path@,
        ),
    }
}

fn load_contents(contents: StoreContents) -> (r: Result<TrustedVerificationKeys, String>)
    ensures
        match r {
            Ok(keys) => contents_problem(contents) is None && contents is Ok && contents->Ok_0 is Ok
                && keys.deep_view() == contents->Ok_0->Ok_0.deep_view(),
            Err(detail) => contents_problem(contents) == Some(detail@),
        },
{
    match contents {
        Err(detail) => Err(detail),
        Ok(parsed) => match TrustedVerificationKeys::load(parsed) {
            Ok(keys) => Ok(keys),
            Err(e) => Err(e.message()),
        },
    }
}

/// The trusted keys of a source, given what reading it gave; for an absent
/// source, `contents` plays no part. Where there are no keys there is one
/// warning, and where there are keys there is none.
pub fn resolve_trust_store(source: TrustStoreSource, contents: StoreContents) -> (r: (
    Option<TrustedVerificationKeys>,
    Vec<PolicyDiagnostic>,
))
    ensures
        match source_problem(source, contents) {
            Some(problem) => r.0 is None && r.1.deep_view() == seq![unavailable(problem)],
            None => r.1@.len() == 0 && contents is Ok && contents->Ok_0 is Ok
                && r.0.deep_view() == Some(contents->Ok_0->Ok_0.deep_view()),
        },
{
    let detail = match source {
        TrustStoreSource::Configured { path } => match load_contents(contents) {
            Ok(keys) => {
                return (Some(keys), Vec::new());
            },
            Err(detail) => "FORNAX_POLICY_TRUST_STORE=".to_owned().concat(
                quote_debug(path.as_str()).as_str(),
            ).concat(" could not be loaded: ").concat(detail.as_str()),
        },
        TrustStoreSource::Home { path } => match load_contents(contents) {
            Ok(keys) => {
                return (Some(keys), Vec::new());
            },
            Err(detail) => path.concat(" could not be loaded: ").concat(detail.as_str()),
        },
        TrustStoreSource::Absent { path } => {
            "no trust store configured: set FORNAX_POLICY_TRUST_STORE or create ".to_owned().concat(
                path.as_str(),
            )
        },
    };
    let warning = unavailable_diagnostic(detail);
    let mut diagnostics: Vec<PolicyDiagnostic> = Vec::new();
    diagnostics.push(warning);
    assert(diagnostics.deep_view() =~= seq![warning.deep_view()]);
    (None, diagnostics)
}

/// A source gives keys exactly if it is there, it could be read and parsed, and
/// it holds at least one key and only sound ones.
pub proof fn law_sources_give_only_sound_keys(source: TrustStoreSource, contents: StoreContents)
    ensures
        source_problem(source, contents) is None <==> {
            &&& !(source is Absent)
            &&& contents is Ok
            &&& contents->Ok_0 is Ok
            &&& contents->Ok_0->Ok_0.keys@.len() > 0
            &&& forall|i: int|
                0 <= i < contents->Ok_0->Ok_0.keys@.len() ==> !#[trigger] spoils(
                    contents->Ok_0->Ok_0.keys.deep_view(),
                    i,
                )
        },
{
    if contents is Ok && contents->Ok_0 is Ok {
        let keys = contents->Ok_0->Ok_0.keys;
        law_sound_stores_have_only_sound_keys(keys.deep_view());
        assert(keys.deep_view().len() == keys@.len());
    }
}

} // verus!

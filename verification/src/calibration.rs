//! What a calibration was made under, so that a later assessment can tell
//! whether it still applies.
use vstd::prelude::*;

use crate::model::Deep;
use crate::order::{
    law_sorted_members_are_canonical, listing, squeeze, squeezed, stable_sort, stably_sorted,
    SortedSet,
};

verus! {

/// Version of the [`CalibrationProvenance`] shape.
pub const CALIBRATION_SCHEMA_VERSION: u32 = 1;

/// Every observable dimension a calibration records. What could not be
/// observed is absent.
#[derive(Debug, Clone, PartialEq, Eq)]
pub struct CalibrationProvenance {
    pub schema_version: u32,
    pub provider: String,
    pub adapter_version: Option<String>,
    pub capability_schema_version: u32,
    pub capability_fingerprint: Vec<(String, String)>,
    pub fusion_policy_name: String,
    pub fusion_policy_version: u32,
    pub decision_policy_name: String,
    pub decision_policy_version: u32,
    pub reliability_policy_version: u32,
    pub disabled_sensors: Vec<String>,
    pub active_policy_revision_digest: Option<String>,
    pub model_version: Option<String>,
    pub model_family: Option<String>,
}

impl CalibrationProvenance {
    /// The same record with its disabled sensors sorted and without
    /// repetitions, so that records compare equal whatever order they were
    /// gathered in.
    pub fn normalize(self) -> (r: Self)
        ensures
            r.disabled_sensors.deep_view() == squeezed(
                stably_sorted::<String>(self.disabled_sensors.deep_view()),
            ),
            r == (CalibrationProvenance { disabled_sensors: r.disabled_sensors, ..self }),
    {
        let mut normalized = self;
        let mut names: Vec<String> = Vec::new();
        std::mem::swap(&mut names, &mut normalized.disabled_sensors);
        normalized.disabled_sensors = squeeze(stable_sort(names));
        normalized
    }

    /// The names of a set of disabled sensors, sorted.
    pub fn disabled_sensors_from(names: &SortedSet<String>) -> (r: Vec<String>)
        ensures
            r.deep_view() == listing::<String>(names.deep_view()),
            r.deep_view().to_set() == names.deep_view(),
    {
        names.as_vec().deep_clone()
    }
}

/// Normalised sensor names are those of the set of names, listed: they depend
/// on which names occur and on nothing else.
pub proof fn law_normalized_sensors_depend_on_members_only(a: Seq<Seq<char>>, b: Seq<Seq<char>>)
    requires
        a.to_set() == b.to_set(),
    ensures
        squeezed(stably_sorted::<String>(a)) == listing::<String>(a.to_set()),
        squeezed(stably_sorted::<String>(a)) == squeezed(stably_sorted::<String>(b)),
{
    law_sorted_members_are_canonical::<String>(a);
    law_sorted_members_are_canonical::<String>(b);
}

} // verus!

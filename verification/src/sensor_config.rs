//! Which sensors a user has disabled.
use vstd::prelude::*;

use crate::order::SortedSet;

verus! {

/// The sensors disabled in a device's configuration, by name.
#[derive(Debug, Clone, PartialEq, Eq)]
pub struct SensorDisableConfig {
    disabled: SortedSet<String>,
}

impl DeepView for SensorDisableConfig {
    type V = Set<Seq<char>>;

    closed spec fn deep_view(&self) -> Set<Seq<char>> {
        self.disabled.deep_view()
    }
}

impl SensorDisableConfig {
    /// A configuration that disables nothing.
    pub fn empty() -> (r: Self)
        ensures
            r.deep_view() == Set::<Seq<char>>::empty(),
    {
        SensorDisableConfig { disabled: SortedSet::new() }
    }

    /// A configuration that disables the named sensors.
    pub fn from_names(names: &Vec<String>) -> (r: Self)
        ensures
            r.deep_view() == names.deep_view().to_set(),
    {
        SensorDisableConfig { disabled: SortedSet::from_vec(names) }
    }

    pub fn disabled_names(&self) -> (r: &SortedSet<String>)
        ensures
            r.deep_view() == self.deep_view(),
    {
        &self.disabled
    }
}

} // verus!

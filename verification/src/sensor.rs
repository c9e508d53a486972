//! Where evidence comes from.
use vstd::prelude::*;

use crate::model::{known_tag, Deep, Tag};

verus! {

/// How far a source of evidence is from the agent it is about.
#[derive(Debug, Clone, PartialEq, Eq)]
pub enum TrustClass {
    /// Reported through the agent's own runtime.
    AgentAdjacent,
    /// Observed on the host, whatever the agent reported.
    HostObserved,
    /// Reported by a system outside the agent and the host.
    IndependentExternal,
    /// Reviewed by a person.
    HumanReviewed,
    /// A value this binary does not recognise, kept as it was written.
    Unrecognized(String),
}

impl DeepView for TrustClass {
    type V = Tag;

    open spec fn deep_view(&self) -> Tag {
        match self {
            TrustClass::AgentAdjacent => known_tag(0),
            TrustClass::HostObserved => known_tag(1),
            TrustClass::IndependentExternal => known_tag(2),
            TrustClass::HumanReviewed => known_tag(3),
            TrustClass::Unrecognized(s) => Tag { index: 4, text: s@ },
        }
    }
}

impl TrustClass {
    fn index(&self) -> (r: u8)
        ensures
            r == self.deep_view().index,
    {
        match self {
            TrustClass::AgentAdjacent => 0,
            TrustClass::HostObserved => 1,
            TrustClass::IndependentExternal => 2,
            TrustClass::HumanReviewed => 3,
            TrustClass::Unrecognized(_) => 4,
        }
    }
}

impl Deep for TrustClass {
    fn deep_clone(&self) -> (r: Self) {
        match self {
            TrustClass::AgentAdjacent => TrustClass::AgentAdjacent,
            TrustClass::HostObserved => TrustClass::HostObserved,
            TrustClass::IndependentExternal => TrustClass::IndependentExternal,
            TrustClass::HumanReviewed => TrustClass::HumanReviewed,
            TrustClass::Unrecognized(s) => TrustClass::Unrecognized(s.clone()),
        }
    }

    fn deep_eq(&self, other: &Self) -> (r: bool) {
        match (self, other) {
            (TrustClass::Unrecognized(a), TrustClass::Unrecognized(b)) => *a == *b,
            _ => self.index() == other.index(),
        }
    }
}

/// Structured provenance of a piece of evidence.
#[derive(Debug, Clone, PartialEq, Eq)]
pub struct EvidenceSource {
    pub trust_class: TrustClass,
}

} // verus!

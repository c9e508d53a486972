//! The boundary between a provider's native records and this library's
//! messages.
use vstd::prelude::*;

use crate::capabilities::CapabilityProbe;
use crate::evidence::{IngestMessage, Provider};
use crate::json::Json;

verus! {

/// What an adapter made of one native record.
#[derive(Debug, Clone, PartialEq, Eq)]
pub enum NormalizationOutcome {
    /// Recognised.
    Messages(Vec<IngestMessage>),
    /// Recognised, and deliberately without messages.
    Ignored { reason: &'static str },
    /// Not recognised. Only the record's type tag is kept.
    Unrecognized { discriminator: String },
}

impl NormalizationOutcome {
    /// The messages to hand on: none for what was ignored or not recognised.
    pub fn into_messages(self) -> (r: Vec<IngestMessage>)
        ensures
            self matches NormalizationOutcome::Messages(messages) ==> r == messages,
            !(self is Messages) ==> r@.len() == 0,
    {
        match self {
            NormalizationOutcome::Messages(messages) => messages,
            NormalizationOutcome::Ignored { .. } => Vec::new(),
            NormalizationOutcome::Unrecognized { .. } => Vec::new(),
        }
    }
}

/// A provider integration.
pub trait AgentAdapter: CapabilityProbe {
    fn provider(&self) -> Provider;

    fn adapter_version(&self) -> &'static str;

    /// Normalises one native record. `session_hint` is used where the record
    /// names no session.
    fn normalize(&mut self, session_hint: &str, native: &Json) -> NormalizationOutcome;
}

} // verus!

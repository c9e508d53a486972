//! Versioned provider-extension data.
use vstd::prelude::*;

use crate::evidence::Provider;
use crate::json::{Json, JsonModel};
use crate::model::{known_tag, Deep, Tag};
use crate::order::SortedMap;
use crate::text::{decimal, number_list, to_decimal, to_number_list};

verus! {

/// The envelope versions this library reads.
pub const SUPPORTED_EXTENSION_SCHEMA_VERSIONS: [u32; 2] = [1, 2];

/// The version a new envelope carries.
pub const EXTENSION_SCHEMA_VERSION: u32 = 2;

/// What kind of data an extension carries.
#[derive(Debug, Clone, PartialEq, Eq)]
pub enum ContentClass {
    ToolTelemetry,
    ProviderDiagnostic,
    ExperimentalSignal,
    RawProviderMetadata,
    /// A value this binary does not recognise, kept as it was written.
    Unrecognized(String),
}

impl DeepView for ContentClass {
    type V = Tag;

    open spec fn deep_view(&self) -> Tag {
        match self {
            ContentClass::ToolTelemetry => known_tag(0),
            ContentClass::ProviderDiagnostic => known_tag(1),
            ContentClass::ExperimentalSignal => known_tag(2),
            ContentClass::RawProviderMetadata => known_tag(3),
            ContentClass::Unrecognized(s) => Tag { index: 4, text: s@ },
        }
    }
}

impl ContentClass {
    fn index(&self) -> (r: u8)
        ensures
            r == self.deep_view().index,
    {
        match self {
            ContentClass::ToolTelemetry => 0,
            ContentClass::ProviderDiagnostic => 1,
            ContentClass::ExperimentalSignal => 2,
            ContentClass::RawProviderMetadata => 3,
            ContentClass::Unrecognized(_) => 4,
        }
    }

    /// The name a value is written under.
    pub open spec fn wire_text(v: Tag) -> Seq<char> {
        if v.index == 0 {
            "tool_telemetry"@
        } else if v.index == 1 {
            "provider_diagnostic"@
        } else if v.index == 2 {
            "experimental_signal"@
        } else if v.index == 3 {
            "raw_provider_metadata"@
        } else {
            v.text
        }
    }

    /// The name this value is written under.
    pub fn wire_tag(&self) -> (r: String)
        ensures
            r@ == Self::wire_text(self.deep_view()),
    {
        match self {
            ContentClass::ToolTelemetry => "tool_telemetry".to_owned(),
            ContentClass::ProviderDiagnostic => "provider_diagnostic".to_owned(),
            ContentClass::ExperimentalSignal => "experimental_signal".to_owned(),
            ContentClass::RawProviderMetadata => "raw_provider_metadata".to_owned(),
            ContentClass::Unrecognized(s) => s.clone(),
        }
    }
}

impl Deep for ContentClass {
    fn deep_clone(&self) -> (r: Self) {
        match self {
            ContentClass::ToolTelemetry => ContentClass::ToolTelemetry,
            ContentClass::ProviderDiagnostic => ContentClass::ProviderDiagnostic,
            ContentClass::ExperimentalSignal => ContentClass::ExperimentalSignal,
            ContentClass::RawProviderMetadata => ContentClass::RawProviderMetadata,
            ContentClass::Unrecognized(s) => ContentClass::Unrecognized(s.clone()),
        }
    }

    fn deep_eq(&self, other: &Self) -> (r: bool) {
        match (self, other) {
            (ContentClass::Unrecognized(a), ContentClass::Unrecognized(b)) => *a == *b,
            _ => self.index() == other.index(),
        }
    }
}

/// Provider data that does not fit a canonical payload. Members of the wire
/// form that are not named here are kept in `unknown`.
#[derive(Debug, Clone, PartialEq, Eq)]
pub struct ExtensionEnvelope {
    pub schema_version: u32,
    pub provider: Provider,
    pub adapter_version: String,
    pub content_class: ContentClass,
    pub fields: Json,
    pub unknown: SortedMap<String, Json>,
}

/// The wire form of an envelope; its version has not been checked.
#[derive(Debug, Clone, PartialEq, Eq)]
pub struct ExtensionEnvelopeWire {
    pub schema_version: u32,
    pub provider: Provider,
    pub adapter_version: String,
    pub content_class: ContentClass,
    pub fields: Json,
    pub unknown: SortedMap<String, Json>,
}

/// Whether an envelope version is one this library reads.
pub open spec fn extension_schema_supported(version: u32) -> bool {
    SUPPORTED_EXTENSION_SCHEMA_VERSIONS@.contains(version)
}

/// What is said of an envelope whose version is not supported.
pub open spec fn extension_version_error(version: u32) -> Seq<char> {
    "incompatible ExtensionEnvelope schema_version "@ + decimal(version as int)
        + ": this binary supports "@ + number_list(SUPPORTED_EXTENSION_SCHEMA_VERSIONS@)
}

impl ExtensionEnvelope {
    /// A new envelope at the current version, without unknown members.
    pub fn new(
        provider: Provider,
        adapter_version: String,
        content_class: ContentClass,
        fields: Json,
    ) -> (r: Self)
        ensures
            r.schema_version == EXTENSION_SCHEMA_VERSION,
            r.provider == provider,
            r.adapter_version == adapter_version,
            r.content_class == content_class,
            r.fields == fields,
            r.unknown.deep_view() == Map::<Seq<char>, JsonModel>::empty(),
    {
        ExtensionEnvelope {
            schema_version: EXTENSION_SCHEMA_VERSION,
            provider,
            adapter_version,
            content_class,
            fields,
            unknown: SortedMap::new(),
        }
    }

    /// Accepts a wire form of a supported version, unchanged.
    pub fn try_from_wire(w: ExtensionEnvelopeWire) -> (r: Result<Self, String>)
        ensures
            match r {
                Ok(e) => extension_schema_supported(w.schema_version) && e == (ExtensionEnvelope {
                    schema_version: w.schema_version,
                    provider: w.provider,
                    adapter_version: w.adapter_version,
                    content_class: w.content_class,
                    fields: w.fields,
                    unknown: w.unknown,
                }),
                Err(message) => !extension_schema_supported(w.schema_version) && message@
                    == extension_version_error(w.schema_version),
            },
    {
        let supported = SUPPORTED_EXTENSION_SCHEMA_VERSIONS;
        assert(supported@[0] == 1 && supported@[1] == 2);
        if w.schema_version != supported[0] && w.schema_version != supported[1] {
            return Err(
                "incompatible ExtensionEnvelope schema_version ".to_owned().concat(
                    to_decimal(w.schema_version as u64).as_str(),
                ).concat(": this binary supports ").concat(
                    to_number_list(supported.as_slice()).as_str(),
                ),
            );
        }
        Ok(
            ExtensionEnvelope {
                schema_version: w.schema_version,
                provider: w.provider,
                adapter_version: w.adapter_version,
                content_class: w.content_class,
                fields: w.fields,
                unknown: w.unknown,
            },
        )
    }
}

/// An envelope that this library writes is one that it reads.
pub proof fn law_new_envelopes_are_readable()
    ensures
        extension_schema_supported(EXTENSION_SCHEMA_VERSION),
{
    assert(SUPPORTED_EXTENSION_SCHEMA_VERSIONS@[1] == EXTENSION_SCHEMA_VERSION);
}

/// Envelopes of the first two versions are read here, and no others.
pub proof fn law_two_versions_are_read(version: u32)
    ensures
        extension_schema_supported(version) <==> version == 1 || version == 2,
{
    let supported = SUPPORTED_EXTENSION_SCHEMA_VERSIONS@;
    assert(supported.len() == 2 && supported[0] == 1 && supported[1] == 2);
    assert(version == 1 ==> supported.contains(supported[0]));
    assert(version == 2 ==> supported.contains(supported[1]));
}

} // verus!

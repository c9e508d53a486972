//! Policy targeting, kept apart from policy content.
use vstd::prelude::*;

use super::diagnostics::{
    plain_diagnostic, DiagnosticCode, DiagnosticSeverity, PolicyDiagnostic, PolicyDiagnosticModel,
    PolicyValidationReport,
};
use super::revision::{
    one_diagnostic, PolicyRevisionRef, PolicyRevisionRefModel, PublishedPolicyRevision,
    PublishedPolicyRevisionModel,
};
use crate::capabilities::{
    declared_observable, RuntimeCapabilities, RuntimeCapabilitiesModel, SignalClass,
};
use crate::code::{
    known_tag_to_code, lemma_number_code_ends, lemma_pair_code_ends, lemma_tag_code_ends,
    lemma_text_code_ends, number_code, number_to_code, tag_code, tag_to_code, text_code, Coded,
};
use crate::evidence::Provider;
use crate::ident::Uuid;
use crate::model::{known_tag, lemma_deep_push, vec_contains, Deep, Tag};
use crate::order::{tag_key, OrderKey, Ordered, SortedSet, Sortable};
use crate::text::str_before;

verus! {

/// Precedence levels, from most general to most specific.
#[derive(Debug, Clone, Copy, PartialEq, Eq, PartialOrd, Ord, Structural)]
pub enum TargetLevel {
    Org,
    Team,
    Project,
    Device,
    LocalUser,
}

impl DeepView for TargetLevel {
    type V = TargetLevel;

    open spec fn deep_view(&self) -> TargetLevel {
        *self
    }
}

impl Deep for TargetLevel {
    fn deep_clone(&self) -> (r: Self) {
        *self
    }

    fn deep_eq(&self, other: &Self) -> (r: bool) {
        *self == *other
    }
}

impl TargetLevel {
    /// Position in the order the variants are declared in.
    pub open spec fn rank(self) -> int {
        match self {
            TargetLevel::Org => 0,
            TargetLevel::Team => 1,
            TargetLevel::Project => 2,
            TargetLevel::Device => 3,
            TargetLevel::LocalUser => 4,
        }
    }

    fn rank_of(&self) -> (r: u8)
        ensures
            r == self.rank(),
    {
        match self {
            TargetLevel::Org => 0,
            TargetLevel::Team => 1,
            TargetLevel::Project => 2,
            TargetLevel::Device => 3,
            TargetLevel::LocalUser => 4,
        }
    }

    /// How diagnostics spell a value.
    pub open spec fn debug_text(self) -> Seq<char> {
        match self {
            TargetLevel::Org => "Org"@,
            TargetLevel::Team => "Team"@,
            TargetLevel::Project => "Project"@,
            TargetLevel::Device => "Device"@,
            TargetLevel::LocalUser => "LocalUser"@,
        }
    }

    pub(crate) fn debug_name(&self) -> (r: String)
        ensures
            r@ == self.debug_text(),
    {
        match self {
            TargetLevel::Org => "Org".to_owned(),
            TargetLevel::Team => "Team".to_owned(),
            TargetLevel::Project => "Project".to_owned(),
            TargetLevel::Device => "Device".to_owned(),
            TargetLevel::LocalUser => "LocalUser".to_owned(),
        }
    }
}

/// Coarse operating-system family.
#[derive(Debug, Clone, PartialEq, Eq, PartialOrd, Ord)]
pub enum OsFamily {
    MacOs,
    Linux,
    Windows,
    /// A value this binary does not recognise, kept as it was written.
    Unrecognized(String),
}

impl DeepView for OsFamily {
    type V = Tag;

    open spec fn deep_view(&self) -> Tag {
        match self {
            OsFamily::MacOs => known_tag(0),
            OsFamily::Linux => known_tag(1),
            OsFamily::Windows => known_tag(2),
            OsFamily::Unrecognized(s) => Tag { index: 3, text: s@ },
        }
    }
}

impl OsFamily {
    fn index(&self) -> (r: u8)
        ensures
            r == self.deep_view().index,
    {
        match self {
            OsFamily::MacOs => 0,
            OsFamily::Linux => 1,
            OsFamily::Windows => 2,
            OsFamily::Unrecognized(_) => 3,
        }
    }
}

impl Deep for OsFamily {
    fn deep_clone(&self) -> (r: Self) {
        match self {
            OsFamily::MacOs => OsFamily::MacOs,
            OsFamily::Linux => OsFamily::Linux,
            OsFamily::Windows => OsFamily::Windows,
            OsFamily::Unrecognized(s) => OsFamily::Unrecognized(s.clone()),
        }
    }

    fn deep_eq(&self, other: &Self) -> (r: bool) {
        match (self, other) {
            (OsFamily::Unrecognized(a), OsFamily::Unrecognized(b)) => *a == *b,
            _ => self.index() == other.index(),
        }
    }
}

impl Sortable for OsFamily {
    open spec fn sort_key(v: Tag) -> OrderKey {
        tag_key(v)
    }

    fn sorts_before(&self, other: &Self) -> (r: bool) {
        match (self, other) {
            (OsFamily::Unrecognized(a), OsFamily::Unrecognized(b)) => str_before(a.as_str(), b.as_str()),
            _ => self.index() < other.index(),
        }
    }
}

impl Ordered for OsFamily {
    proof fn key_is_injective(a: Tag, b: Tag) {
    }
}

/// Whom a binding is for.
#[derive(Debug, Clone, PartialEq, Eq)]
pub enum TargetScope {
    Org { org_id: String },
    Team { org_id: String, team_id: String },
    Project { org_id: String, project_id: String },
    Device { device_id: String },
    LocalUser,
}

/// The mathematical value of a [`TargetScope`].
#[verifier::ext_equal]
pub enum TargetScopeModel {
    Org { org_id: Seq<char> },
    Team { org_id: Seq<char>, team_id: Seq<char> },
    Project { org_id: Seq<char>, project_id: Seq<char> },
    Device { device_id: Seq<char> },
    LocalUser,
}

impl DeepView for TargetScope {
    type V = TargetScopeModel;

    open spec fn deep_view(&self) -> TargetScopeModel {
        match self {
            TargetScope::Org { org_id } => TargetScopeModel::Org {
                org_id: org_id@,
            },
            TargetScope::Team { org_id, team_id } => TargetScopeModel::Team {
                org_id: org_id@,
                team_id: team_id@,
            },
            TargetScope::Project { org_id, project_id } => TargetScopeModel::Project {
                org_id: org_id@,
                project_id: project_id@,
            },
            TargetScope::Device { device_id } => TargetScopeModel::Device {
                device_id: device_id@,
            },
            TargetScope::LocalUser => TargetScopeModel::LocalUser,
        }
    }
}

impl Deep for TargetScope {
    fn deep_clone(&self) -> (r: Self) {
        match self {
            TargetScope::Org { org_id } => TargetScope::Org {
                org_id: org_id.clone(),
            },
            TargetScope::Team { org_id, team_id } => TargetScope::Team {
                org_id: org_id.clone(),
                team_id: team_id.clone(),
            },
            TargetScope::Project { org_id, project_id } => TargetScope::Project {
                org_id: org_id.clone(),
                project_id: project_id.clone(),
            },
            TargetScope::Device { device_id } => TargetScope::Device {
                device_id: device_id.clone(),
            },
            TargetScope::LocalUser => TargetScope::LocalUser,
        }
    }

    fn deep_eq(&self, other: &Self) -> (r: bool) {
        match (self, other) {
            (
                TargetScope::Org { org_id: a0 },
                TargetScope::Org { org_id: b0 },
            ) => *a0 == *b0,
            (
                TargetScope::Team { org_id: a0, team_id: a1 },
                TargetScope::Team { org_id: b0, team_id: b1 },
            ) => *a0 == *b0 && *a1 == *b1,
            (
                TargetScope::Project { org_id: a0, project_id: a1 },
                TargetScope::Project { org_id: b0, project_id: b1 },
            ) => *a0 == *b0 && *a1 == *b1,
            (
                TargetScope::Device { device_id: a0 },
                TargetScope::Device { device_id: b0 },
            ) => *a0 == *b0,
            (TargetScope::LocalUser, TargetScope::LocalUser) => true,
            _ => false,
        }
    }
}

/// What resolution knows about the local device.
#[derive(Debug, Clone, PartialEq, Eq)]
pub struct DeviceContext {
    pub org_id: Option<String>,
    pub team_ids: SortedSet<String>,
    pub project_ids: SortedSet<String>,
    pub device_id: String,
    pub provider: Provider,
    pub capabilities: RuntimeCapabilities,
    pub os_family: OsFamily,
}

/// The mathematical value of a [`DeviceContext`].
#[verifier::ext_equal]
pub struct DeviceContextModel {
    pub org_id: Option<Seq<char>>,
    pub team_ids: Set<Seq<char>>,
    pub project_ids: Set<Seq<char>>,
    pub device_id: Seq<char>,
    pub provider: Provider,
    pub capabilities: RuntimeCapabilitiesModel,
    pub os_family: Tag,
}

impl DeepView for DeviceContext {
    type V = DeviceContextModel;

    open spec fn deep_view(&self) -> DeviceContextModel {
        DeviceContextModel {
            org_id: self.org_id.deep_view(),
            team_ids: self.team_ids.deep_view(),
            project_ids: self.project_ids.deep_view(),
            device_id: self.device_id.deep_view(),
            provider: self.provider.deep_view(),
            capabilities: self.capabilities.deep_view(),
            os_family: self.os_family.deep_view(),
        }
    }
}

impl Deep for DeviceContext {
    fn deep_clone(&self) -> (r: Self) {
        DeviceContext {
            org_id: self.org_id.deep_clone(),
            team_ids: self.team_ids.deep_clone(),
            project_ids: self.project_ids.deep_clone(),
            device_id: self.device_id.deep_clone(),
            provider: self.provider.deep_clone(),
            capabilities: self.capabilities.deep_clone(),
            os_family: self.os_family.deep_clone(),
        }
    }

    fn deep_eq(&self, other: &Self) -> (r: bool) {
        self.org_id.deep_eq(&other.org_id)
            && self.team_ids.deep_eq(&other.team_ids)
            && self.project_ids.deep_eq(&other.project_ids)
            && self.device_id.deep_eq(&other.device_id)
            && self.provider.deep_eq(&other.provider)
            && self.capabilities.deep_eq(&other.capabilities)
            && self.os_family.deep_eq(&other.os_family)
    }
}

/// Closed selectors. A field that is `None` matches everything.
#[derive(Debug, Clone, PartialEq, Eq)]
pub struct TargetSelector {
    pub providers: Option<Vec<Provider>>,
    pub os_families: Option<SortedSet<OsFamily>>,
    /// Every listed class must be available locally.
    pub requires_signals: Option<Vec<SignalClass>>,
}

/// The mathematical value of a [`TargetSelector`].
#[verifier::ext_equal]
pub struct TargetSelectorModel {
    pub providers: Option<Seq<Provider>>,
    pub os_families: Option<Set<Tag>>,
    pub requires_signals: Option<Seq<Tag>>,
}

impl DeepView for TargetSelector {
    type V = TargetSelectorModel;

    open spec fn deep_view(&self) -> TargetSelectorModel {
        TargetSelectorModel {
            providers: self.providers.deep_view(),
            os_families: self.os_families.deep_view(),
            requires_signals: self.requires_signals.deep_view(),
        }
    }
}

impl Deep for TargetSelector {
    fn deep_clone(&self) -> (r: Self) {
        TargetSelector {
            providers: self.providers.deep_clone(),
            os_families: self.os_families.deep_clone(),
            requires_signals: self.requires_signals.deep_clone(),
        }
    }

    fn deep_eq(&self, other: &Self) -> (r: bool) {
        self.providers.deep_eq(&other.providers)
            && self.os_families.deep_eq(&other.os_families)
            && self.requires_signals.deep_eq(&other.requires_signals)
    }
}

/// Binds a revision to a target. Holds a reference, never the content.
#[derive(Debug, Clone, PartialEq, Eq)]
pub struct PolicyBinding {
    pub binding_id: Uuid,
    pub scope: TargetScope,
    pub selector: TargetSelector,
    pub revision_ref: PolicyRevisionRef,
}

/// The mathematical value of a [`PolicyBinding`].
#[verifier::ext_equal]
pub struct PolicyBindingModel {
    pub binding_id: Uuid,
    pub scope: TargetScopeModel,
    pub selector: TargetSelectorModel,
    pub revision_ref: PolicyRevisionRefModel,
}

impl DeepView for PolicyBinding {
    type V = PolicyBindingModel;

    open spec fn deep_view(&self) -> PolicyBindingModel {
        PolicyBindingModel {
            binding_id: self.binding_id.deep_view(),
            scope: self.scope.deep_view(),
            selector: self.selector.deep_view(),
            revision_ref: self.revision_ref.deep_view(),
        }
    }
}

impl Deep for PolicyBinding {
    fn deep_clone(&self) -> (r: Self) {
        PolicyBinding {
            binding_id: self.binding_id.deep_clone(),
            scope: self.scope.deep_clone(),
            selector: self.selector.deep_clone(),
            revision_ref: self.revision_ref.deep_clone(),
        }
    }

    fn deep_eq(&self, other: &Self) -> (r: bool) {
        self.binding_id.deep_eq(&other.binding_id)
            && self.scope.deep_eq(&other.scope)
            && self.selector.deep_eq(&other.selector)
            && self.revision_ref.deep_eq(&other.revision_ref)
    }
}

impl Default for TargetSelector {
    fn default() -> (r: Self)
        ensures
            r.deep_view() == (TargetSelectorModel {
                providers: None,
                os_families: None,
                requires_signals: None,
            }),
    {
        TargetSelector { providers: None, os_families: None, requires_signals: None }
    }
}

/// The level of a scope.
pub open spec fn scope_level(scope: TargetScopeModel) -> TargetLevel {
    match scope {
        TargetScopeModel::Org { .. } => TargetLevel::Org,
        TargetScopeModel::Team { .. } => TargetLevel::Team,
        TargetScopeModel::Project { .. } => TargetLevel::Project,
        TargetScopeModel::Device { .. } => TargetLevel::Device,
        TargetScopeModel::LocalUser => TargetLevel::LocalUser,
    }
}

/// Whether a device lies in a scope.
pub open spec fn scope_applies(scope: TargetScopeModel, ctx: DeviceContextModel) -> bool {
    match scope {
        TargetScopeModel::Org { org_id } => ctx.org_id == Some(org_id),
        TargetScopeModel::Team { org_id, team_id } => ctx.org_id == Some(org_id)
            && ctx.team_ids.contains(team_id),
        TargetScopeModel::Project { org_id, project_id } => ctx.org_id == Some(org_id)
            && ctx.project_ids.contains(project_id),
        TargetScopeModel::Device { device_id } => ctx.device_id == device_id,
        TargetScopeModel::LocalUser => true,
    }
}

fn same_org(ctx: &DeviceContext, org: &String) -> (r: bool)
    ensures
        r == (ctx.deep_view().org_id == Some(org@)),
{
    match &ctx.org_id {
        Some(id) => *id == *org,
        None => false,
    }
}

impl TargetScope {
    pub fn level(&self) -> (r: TargetLevel)
        ensures
            r == scope_level(self.deep_view()),
    {
        match self {
            TargetScope::Org { .. } => TargetLevel::Org,
            TargetScope::Team { .. } => TargetLevel::Team,
            TargetScope::Project { .. } => TargetLevel::Project,
            TargetScope::Device { .. } => TargetLevel::Device,
            TargetScope::LocalUser => TargetLevel::LocalUser,
        }
    }

    pub fn matches(&self, ctx: &DeviceContext) -> (r: bool)
        ensures
            r == scope_applies(self.deep_view(), ctx.deep_view()),
    {
        match self {
            TargetScope::Org { org_id } => same_org(ctx, org_id),
            TargetScope::Team { org_id, team_id } => same_org(ctx, org_id)
                && ctx.team_ids.contains(team_id),
            TargetScope::Project { org_id, project_id } => same_org(ctx, org_id)
                && ctx.project_ids.contains(project_id),
            TargetScope::Device { device_id } => ctx.device_id == *device_id,
            TargetScope::LocalUser => true,
        }
    }
}

/// Whether a set of operating-system families names one this library does
/// not recognise.
pub open spec fn names_unknown_family(families: Set<Tag>) -> bool {
    exists|t: Tag| #[trigger] families.contains(t) && t.index == 3
}

/// Whether a list of signal classes names one this library does not
/// recognise.
pub open spec fn names_unknown_signal(signals: Seq<Tag>) -> bool {
    exists|i: int| 0 <= i < signals.len() && (#[trigger] signals[i]).index == 11
}

/// The first class of the list that the device cannot observe.
pub open spec fn first_unobservable(
    capabilities: RuntimeCapabilitiesModel,
    signals: Seq<Tag>,
) -> Option<Tag>
    decreases signals.len(),
{
    if signals.len() == 0 {
        None
    } else if !declared_observable(capabilities.signals, signals[0]) {
        Some(signals[0])
    } else {
        first_unobservable(capabilities, signals.drop_first())
    }
}

pub open spec fn unavailable_signal_diagnostic(class: Tag, binding: Uuid) -> PolicyDiagnosticModel {
    PolicyDiagnosticModel {
        bindings: seq![binding],
        ..plain_diagnostic(
            DiagnosticCode::RequiredSignalUnavailable,
            DiagnosticSeverity::Warning,
            "binding requires signal "@ + SignalClass::debug_text(class)
                + ", which this device does not report as available"@,
            "publish a binding whose requires_signals matches what this device can observe, or drop the requirement"@,
        )
    }
}

pub open spec fn not_understood_diagnostic(binding: Uuid) -> PolicyDiagnosticModel {
    PolicyDiagnosticModel {
        bindings: seq![binding],
        ..plain_diagnostic(
            DiagnosticCode::SelectorNotUnderstood,
            DiagnosticSeverity::Warning,
            "selector names a value this binary does not recognize; applying the binding rather than silently dropping it"@,
            "upgrade this binary to a version that understands the newer selector value"@,
        )
    }
}

/// Whether the operating-system part of a selector turns the device away.
/// A set with an unrecognised family turns no device away.
pub open spec fn family_excludes(selector: TargetSelectorModel, ctx: DeviceContextModel) -> bool {
    match selector.os_families {
        Some(families) => !names_unknown_family(families) && !families.contains(ctx.os_family),
        None => false,
    }
}

/// The required signal class for want of which the device is turned away.
/// A list with an unrecognised class turns no device away.
pub open spec fn missing_signal(
    selector: TargetSelectorModel,
    ctx: DeviceContextModel,
) -> Option<Tag> {
    match selector.requires_signals {
        Some(signals) => if names_unknown_signal(signals) {
            None
        } else {
            first_unobservable(ctx.capabilities, signals)
        },
        None => None,
    }
}

/// Whether a selector names anything this library does not recognise.
pub open spec fn selector_not_understood(selector: TargetSelectorModel) -> bool {
    ||| selector.os_families matches Some(families) && names_unknown_family(families)
    ||| selector.requires_signals matches Some(signals) && names_unknown_signal(signals)
}

/// Whether the provider part of a selector turns the device away.
pub open spec fn provider_excludes(selector: TargetSelectorModel, ctx: DeviceContextModel) -> bool {
    selector.providers matches Some(providers) && !providers.contains(ctx.provider)
}

/// Whether a selector lets a device through.
pub open spec fn selector_applies(selector: TargetSelectorModel, ctx: DeviceContextModel) -> bool {
    !provider_excludes(selector, ctx) && !family_excludes(selector, ctx) && missing_signal(
        selector,
        ctx,
    ) is None
}

/// The diagnostics of evaluating a selector.
pub open spec fn selector_notes(
    selector: TargetSelectorModel,
    ctx: DeviceContextModel,
    binding: Uuid,
) -> Seq<PolicyDiagnosticModel> {
    if provider_excludes(selector, ctx) || family_excludes(selector, ctx) {
        Seq::empty()
    } else {
        match missing_signal(selector, ctx) {
            Some(class) => seq![unavailable_signal_diagnostic(class, binding)],
            None => if selector_not_understood(selector) {
                seq![not_understood_diagnostic(binding)]
            } else {
                Seq::empty()
            },
        }
    }
}

fn any_unknown_family(families: &SortedSet<OsFamily>) -> (r: bool)
    ensures
        r == names_unknown_family(families.deep_view()),
{
    let items = families.as_vec();
    let ghost all = items.deep_view();
    let mut i: usize = 0;
    while i < items.len()
        invariant
            i <= items.len(),
            all == items.deep_view(),
            all.to_set() == families.deep_view(),
            forall|j: int| 0 <= j < i ==> (#[trigger] all[j]).index != 3,
        decreases items.len() - i,
    {
        assert(all[i as int] == items@[i as int].deep_view());
        match &items[i] {
            OsFamily::Unrecognized(_) => {
                assert(all.to_set().contains(all[i as int]));
                assert(families.deep_view().contains(all[i as int]));
                return true;
            },
            _ => {},
        }
        i = i + 1;
    }
    assert forall|t: Tag| #[trigger] families.deep_view().contains(t) implies t.index != 3 by {
        assert(all.to_set().contains(t));
        let k = choose|k: int| 0 <= k < all.len() && all[k] == t;
        assert(all[k].index != 3);
    }
    false
}

fn any_unknown_signal(signals: &Vec<SignalClass>) -> (r: bool)
    ensures
        r == names_unknown_signal(signals.deep_view()),
{
    let ghost all = signals.deep_view();
    let mut i: usize = 0;
    while i < signals.len()
        invariant
            i <= signals.len(),
            all == signals.deep_view(),
            forall|j: int| 0 <= j < i ==> (#[trigger] all[j]).index != 11,
        decreases signals.len() - i,
    {
        assert(all[i as int] == signals@[i as int].deep_view());
        match &signals[i] {
            SignalClass::Unrecognized(_) => {
                return true;
            },
            _ => {},
        }
        i = i + 1;
    }
    false
}

fn find_unobservable<'a>(capabilities: &RuntimeCapabilities, signals: &'a Vec<SignalClass>) -> (r:
    Option<&'a SignalClass>)
    ensures
        match r {
            Some(class) => first_unobservable(capabilities.deep_view(), signals.deep_view())
                == Some(class.deep_view()),
            None => first_unobservable(capabilities.deep_view(), signals.deep_view()) is None,
        },
{
    let ghost all = signals.deep_view();
    let ghost caps = capabilities.deep_view();
    let mut i: usize = 0;
    assert(all.skip(0) =~= all);
    while i < signals.len()
        invariant
            i <= signals.len(),
            all == signals.deep_view(),
            caps == capabilities.deep_view(),
            first_unobservable(caps, all) == first_unobservable(caps, all.skip(i as int)),
        decreases signals.len() - i,
    {
        assert(all.skip(i as int)[0] == signals@[i as int].deep_view());
        if !capabilities.is_observable(&signals[i]) {
            return Some(&signals[i]);
        }
        assert(all.skip(i as int).drop_first() =~= all.skip(i as int + 1));
        i = i + 1;
    }
    None
}

fn one_binding(id: Uuid) -> (r: Vec<Uuid>)
    ensures
        r.deep_view() == seq![id],
{
    let mut v: Vec<Uuid> = Vec::new();
    v.push(id);
    assert(v.deep_view() =~= seq![id]);
    v
}

impl TargetSelector {
    /// Whether the selector lets the device through. What could not be
    /// understood or observed is reported against `binding_id`.
    pub fn matches(
        &self,
        ctx: &DeviceContext,
        binding_id: Uuid,
        diagnostics: &mut Vec<PolicyDiagnostic>,
    ) -> (r: bool)
        ensures
            r == selector_applies(self.deep_view(), ctx.deep_view()),
            final(diagnostics).deep_view() == old(diagnostics).deep_view() + selector_notes(
                self.deep_view(),
                ctx.deep_view(),
                binding_id,
            ),
    {
        let ghost before = *diagnostics;
        assert(before.deep_view() + Seq::<PolicyDiagnosticModel>::empty() =~= before.deep_view());
        if let Some(providers) = &self.providers {
            if !vec_contains(providers, &ctx.provider) {
                return false;
            }
        }
        let mut selector_not_understood = false;
        if let Some(families) = &self.os_families {
            if any_unknown_family(families) {
                selector_not_understood = true;
            } else if !families.contains(&ctx.os_family) {
                return false;
            }
        }
        if let Some(signals) = &self.requires_signals {
            if any_unknown_signal(signals) {
                selector_not_understood = true;
            } else if let Some(class) = find_unobservable(&ctx.capabilities, signals) {
                let message = "binding requires signal ".to_owned().concat(
                    class.debug_name().as_str(),
                ).concat(", which this device does not report as available");
                let d = PolicyDiagnostic::new(
                    DiagnosticCode::RequiredSignalUnavailable,
                    DiagnosticSeverity::Warning,
                    message,
                    "publish a binding whose requires_signals matches what this device can observe, or drop the requirement",
                ).with_bindings(one_binding(binding_id));
                diagnostics.push(d);
                proof {
                    lemma_deep_push(before, *diagnostics, d);
                    assert(before.deep_view().push(d.deep_view()) =~= before.deep_view()
                        + seq![d.deep_view()]);
                }
                return false;
            }
        }
        if selector_not_understood {
            let d = PolicyDiagnostic::new(
                DiagnosticCode::SelectorNotUnderstood,
                DiagnosticSeverity::Warning,
                "selector names a value this binary does not recognize; applying the binding rather than silently dropping it".to_owned(),
                "upgrade this binary to a version that understands the newer selector value",
            ).with_bindings(one_binding(binding_id));
            diagnostics.push(d);
            proof {
                lemma_deep_push(before, *diagnostics, d);
                assert(before.deep_view().push(d.deep_view()) =~= before.deep_view()
                    + seq![d.deep_view()]);
            }
        }
        true
    }
}

/// Whether a binding applies to a device: its scope and its selector both do.
pub open spec fn binding_applies(binding: PolicyBindingModel, ctx: DeviceContextModel) -> bool {
    scope_applies(binding.scope, ctx) && selector_applies(binding.selector, ctx)
}

/// The diagnostics of evaluating a binding. One outside its scope has none.
pub open spec fn binding_notes(
    binding: PolicyBindingModel,
    ctx: DeviceContextModel,
) -> Seq<PolicyDiagnosticModel> {
    if scope_applies(binding.scope, ctx) {
        selector_notes(binding.selector, ctx, binding.binding_id)
    } else {
        Seq::empty()
    }
}

impl PolicyBinding {
    pub fn matches(
        &self,
        ctx: &DeviceContext,
        diagnostics: &mut Vec<PolicyDiagnostic>,
    ) -> (r: bool)
        ensures
            r == binding_applies(self.deep_view(), ctx.deep_view()),
            final(diagnostics).deep_view() == old(diagnostics).deep_view() + binding_notes(
                self.deep_view(),
                ctx.deep_view(),
            ),
    {
        assert(old(diagnostics).deep_view() + Seq::<PolicyDiagnosticModel>::empty() =~= old(
            diagnostics,
        ).deep_view());
        self.scope.matches(ctx) && self.selector.matches(ctx, self.binding_id, diagnostics)
    }
}

/// A binding joined with the revision it references.
#[derive(Debug, PartialEq, Eq)]
pub struct BoundRevision {
    binding: PolicyBinding,
    revision: PublishedPolicyRevision,
}

/// The mathematical value of a [`BoundRevision`].
#[verifier::ext_equal]
pub struct BoundRevisionModel {
    pub binding: PolicyBindingModel,
    pub revision: PublishedPolicyRevisionModel,
}

impl DeepView for BoundRevision {
    type V = BoundRevisionModel;

    closed spec fn deep_view(&self) -> BoundRevisionModel {
        BoundRevisionModel {
            binding: self.binding.deep_view(),
            revision: self.revision.deep_view(),
        }
    }
}

impl Deep for BoundRevision {
    fn deep_clone(&self) -> (r: Self) {
        proof {
            use_type_invariant(self);
        }
        BoundRevision { binding: self.binding.deep_clone(), revision: self.revision.deep_clone() }
    }

    fn deep_eq(&self, other: &Self) -> (r: bool) {
        self.binding.deep_eq(&other.binding) && self.revision.deep_eq(&other.revision)
    }
}

impl Clone for BoundRevision {
    fn clone(&self) -> (r: Self)
        ensures
            r.deep_view() == self.deep_view(),
    {
        self.deep_clone()
    }
}

/// Bound revisions sort by binding identifier, and those with the same
/// identifier by their texts.
impl<'a> Sortable for &'a BoundRevision {
    open spec fn sort_key(v: BoundRevisionModel) -> OrderKey {
        OrderKey { rank: v.binding.binding_id.0 as int, text: BoundRevision::code(v), tail: 0 }
    }

    fn sorts_before(&self, other: &Self) -> (r: bool) {
        if self.binding.binding_id.0 == other.binding.binding_id.0 {
            str_before(self.to_code().as_str(), other.to_code().as_str())
        } else {
            self.binding.binding_id.0 < other.binding.binding_id.0
        }
    }
}

/// Why a binding and a revision cannot be joined, if they cannot.
pub open spec fn join_refusal(
    binding: PolicyBindingModel,
    revision: PublishedPolicyRevisionModel,
) -> Option<PolicyDiagnosticModel> {
    if binding.revision_ref.digest != revision.digest {
        Some(
            PolicyDiagnosticModel {
                bindings: seq![binding.binding_id],
                ..plain_diagnostic(
                    DiagnosticCode::DigestMismatch,
                    DiagnosticSeverity::Error,
                    "binding.revision_ref.digest does not match the joined revision's digest"@,
                    "re-fetch the revision the binding actually references, or update the binding"@,
                )
            },
        )
    } else if scope_level(binding.scope) == TargetLevel::LocalUser && revision.body.pinned_fields
        != Set::<Tag>::empty() {
        Some(
            PolicyDiagnosticModel {
                bindings: seq![binding.binding_id],
                ..plain_diagnostic(
                    DiagnosticCode::PinAtLocalUserLayer,
                    DiagnosticSeverity::Error,
                    "a pin at TargetLevel::LocalUser is a no-op -- nothing is more specific than this level"@,
                    "remove pinned_fields from a revision bound at LocalUser scope"@,
                )
            },
        )
    } else {
        None
    }
}

impl BoundRevision {
    #[verifier::type_invariant]
    spec fn wf(&self) -> bool {
        join_refusal(self.binding.deep_view(), self.revision.deep_view()) is None
    }

    /// Joins a binding with a revision. Refused when the binding references
    /// another digest, or pins at the most specific level.
    pub fn new(binding: PolicyBinding, revision: PublishedPolicyRevision) -> (r: Result<
        Self,
        PolicyValidationReport,
    >)
        ensures
            match r {
                Ok(bound) => join_refusal(binding.deep_view(), revision.deep_view()) is None
                    && bound.deep_view() == (BoundRevisionModel {
                    binding: binding.deep_view(),
                    revision: revision.deep_view(),
                }),
                Err(report) => join_refusal(binding.deep_view(), revision.deep_view())
                    matches Some(d) && report.diagnostics.deep_view() == seq![d],
            },
    {
        if !binding.revision_ref.digest.deep_eq(revision.digest()) {
            return Err(
                one_diagnostic(
                    PolicyDiagnostic::new(
                        DiagnosticCode::DigestMismatch,
                        DiagnosticSeverity::Error,
                        "binding.revision_ref.digest does not match the joined revision's digest".to_owned(),
                        "re-fetch the revision the binding actually references, or update the binding",
                    ).with_bindings(one_binding(binding.binding_id)),
                ),
            );
        }
        if binding.scope.level() == TargetLevel::LocalUser
            && !revision.body().pinned_fields.is_empty() {
            return Err(
                one_diagnostic(
                    PolicyDiagnostic::new(
                        DiagnosticCode::PinAtLocalUserLayer,
                        DiagnosticSeverity::Error,
                        "a pin at TargetLevel::LocalUser is a no-op -- nothing is more specific than this level".to_owned(),
                        "remove pinned_fields from a revision bound at LocalUser scope",
                    ).with_bindings(one_binding(binding.binding_id)),
                ),
            );
        }
        Ok(BoundRevision { binding, revision })
    }

    pub fn binding(&self) -> (r: &PolicyBinding)
        ensures
            r.deep_view() == self.deep_view().binding,
    {
        &self.binding
    }

    pub fn revision(&self) -> (r: &PublishedPolicyRevision)
        ensures
            r.deep_view() == self.deep_view().revision,
    {
        &self.revision
    }
}

impl Coded for OsFamily {
    open spec fn code(v: Tag) -> Seq<char> {
        tag_code(v)
    }

    open spec fn codable(v: Tag) -> bool {
        0 <= v.index
    }

    proof fn lemma_codable(value: OsFamily) {
    }

    proof fn lemma_code_ends(a: Tag, b: Tag, x: Seq<char>, y: Seq<char>) {
        lemma_tag_code_ends(a, b, x, y);
    }

    fn to_code(&self) -> (r: String) {
        match self {
            OsFamily::Unrecognized(s) => tag_to_code(self.index(), s.as_str()),
            _ => known_tag_to_code(self.index()),
        }
    }
}

impl Coded for TargetScope {
    open spec fn code(v: TargetScopeModel) -> Seq<char> {
        match v {
            TargetScopeModel::Org { org_id } => number_code(0) + text_code(org_id),
            TargetScopeModel::Team { org_id, team_id } => number_code(1) + (text_code(org_id)
                + text_code(team_id)),
            TargetScopeModel::Project { org_id, project_id } => number_code(2) + (text_code(org_id)
                + text_code(project_id)),
            TargetScopeModel::Device { device_id } => number_code(3) + text_code(device_id),
            TargetScopeModel::LocalUser => number_code(4),
        }
    }

    open spec fn codable(v: TargetScopeModel) -> bool {
        true
    }

    proof fn lemma_codable(value: TargetScope) {
    }

    proof fn lemma_code_ends(
        a: TargetScopeModel,
        b: TargetScopeModel,
        x: Seq<char>,
        y: Seq<char>,
    ) {
        let mark = |v: TargetScopeModel| -> nat
            {
                match v {
                    TargetScopeModel::Org { .. } => 0,
                    TargetScopeModel::Team { .. } => 1,
                    TargetScopeModel::Project { .. } => 2,
                    TargetScopeModel::Device { .. } => 3,
                    TargetScopeModel::LocalUser => 4,
                }
            };
        let rest = |v: TargetScopeModel, z: Seq<char>|
            match v {
                TargetScopeModel::Org { org_id } => text_code(org_id) + z,
                TargetScopeModel::Team { org_id, team_id } => text_code(org_id) + (text_code(
                    team_id,
                ) + z),
                TargetScopeModel::Project { org_id, project_id } => text_code(org_id) + (text_code(
                    project_id,
                ) + z),
                TargetScopeModel::Device { device_id } => text_code(device_id) + z,
                TargetScopeModel::LocalUser => z,
            };
        assert(Self::code(a) + x =~= number_code(mark(a)) + rest(a, x));
        assert(Self::code(b) + y =~= number_code(mark(b)) + rest(b, y));
        lemma_number_code_ends(mark(a), mark(b), rest(a, x), rest(b, y));
        match (a, b) {
            (TargetScopeModel::Org { org_id: m }, TargetScopeModel::Org { org_id: n }) => {
                lemma_text_code_ends(m, n, x, y);
            },
            (
                TargetScopeModel::Team { org_id: m, team_id: s },
                TargetScopeModel::Team { org_id: n, team_id: t },
            ) => {
                lemma_text_code_ends(m, n, text_code(s) + x, text_code(t) + y);
                lemma_text_code_ends(s, t, x, y);
            },
            (
                TargetScopeModel::Project { org_id: m, project_id: s },
                TargetScopeModel::Project { org_id: n, project_id: t },
            ) => {
                lemma_text_code_ends(m, n, text_code(s) + x, text_code(t) + y);
                lemma_text_code_ends(s, t, x, y);
            },
            (TargetScopeModel::Device { device_id: m }, TargetScopeModel::Device { device_id: n }) => {
                lemma_text_code_ends(m, n, x, y);
            },
            _ => {},
        }
    }

    fn to_code(&self) -> (r: String) {
        match self {
            TargetScope::Org { org_id } => number_to_code(0).concat(org_id.to_code().as_str()),
            TargetScope::Team { org_id, team_id } => number_to_code(1).concat(
                org_id.to_code().concat(team_id.to_code().as_str()).as_str(),
            ),
            TargetScope::Project { org_id, project_id } => number_to_code(2).concat(
                org_id.to_code().concat(project_id.to_code().as_str()).as_str(),
            ),
            TargetScope::Device { device_id } => number_to_code(3).concat(
                device_id.to_code().as_str(),
            ),
            TargetScope::LocalUser => number_to_code(4),
        }
    }
}

impl Coded for TargetSelector {
    open spec fn code(v: TargetSelectorModel) -> Seq<char> {
        Option::<Vec<Provider>>::code(v.providers)
            + (Option::<SortedSet<OsFamily>>::code(v.os_families)
            + Option::<Vec<SignalClass>>::code(v.requires_signals))
    }

    open spec fn codable(v: TargetSelectorModel) -> bool {
        &&& Option::<Vec<Provider>>::codable(v.providers)
        &&& Option::<SortedSet<OsFamily>>::codable(v.os_families)
        &&& Option::<Vec<SignalClass>>::codable(v.requires_signals)
    }

    proof fn lemma_codable(value: TargetSelector) {
        Option::<Vec<Provider>>::lemma_codable(value.providers);
        Option::<SortedSet<OsFamily>>::lemma_codable(value.os_families);
        Option::<Vec<SignalClass>>::lemma_codable(value.requires_signals);
    }

    proof fn lemma_code_ends(
        a: TargetSelectorModel,
        b: TargetSelectorModel,
        x: Seq<char>,
        y: Seq<char>,
    ) {
        lemma_pair_code_ends::<Option<Vec<Provider>>>(
            a.providers,
            b.providers,
            Option::<SortedSet<OsFamily>>::code(a.os_families)
                + Option::<Vec<SignalClass>>::code(a.requires_signals),
            Option::<SortedSet<OsFamily>>::code(b.os_families)
                + Option::<Vec<SignalClass>>::code(b.requires_signals),
            x,
            y,
        );
        lemma_pair_code_ends::<Option<SortedSet<OsFamily>>>(
            a.os_families,
            b.os_families,
            Option::<Vec<SignalClass>>::code(a.requires_signals),
            Option::<Vec<SignalClass>>::code(b.requires_signals),
            x,
            y,
        );
        Option::<Vec<SignalClass>>::lemma_code_ends(a.requires_signals, b.requires_signals, x, y);
    }

    fn to_code(&self) -> (r: String) {
        self.providers.to_code().concat(
            self.os_families.to_code().concat(
                self.requires_signals.to_code().as_str(),
            ).as_str(),
        )
    }
}

impl Coded for PolicyBinding {
    open spec fn code(v: PolicyBindingModel) -> Seq<char> {
        Uuid::code(v.binding_id) + (TargetScope::code(v.scope) + (TargetSelector::code(v.selector)
            + PolicyRevisionRef::code(v.revision_ref)))
    }

    open spec fn codable(v: PolicyBindingModel) -> bool {
        &&& Uuid::codable(v.binding_id)
        &&& TargetScope::codable(v.scope)
        &&& TargetSelector::codable(v.selector)
        &&& PolicyRevisionRef::codable(v.revision_ref)
    }

    proof fn lemma_codable(value: PolicyBinding) {
        Uuid::lemma_codable(value.binding_id);
        TargetScope::lemma_codable(value.scope);
        TargetSelector::lemma_codable(value.selector);
        PolicyRevisionRef::lemma_codable(value.revision_ref);
    }

    proof fn lemma_code_ends(
        a: PolicyBindingModel,
        b: PolicyBindingModel,
        x: Seq<char>,
        y: Seq<char>,
    ) {
        lemma_pair_code_ends::<Uuid>(
            a.binding_id,
            b.binding_id,
            TargetScope::code(a.scope) + (TargetSelector::code(a.selector)
                + PolicyRevisionRef::code(a.revision_ref)),
            TargetScope::code(b.scope) + (TargetSelector::code(b.selector)
                + PolicyRevisionRef::code(b.revision_ref)),
            x,
            y,
        );
        lemma_pair_code_ends::<TargetScope>(
            a.scope,
            b.scope,
            TargetSelector::code(a.selector) + PolicyRevisionRef::code(a.revision_ref),
            TargetSelector::code(b.selector) + PolicyRevisionRef::code(b.revision_ref),
            x,
            y,
        );
        lemma_pair_code_ends::<TargetSelector>(
            a.selector,
            b.selector,
            PolicyRevisionRef::code(a.revision_ref),
            PolicyRevisionRef::code(b.revision_ref),
            x,
            y,
        );
        PolicyRevisionRef::lemma_code_ends(a.revision_ref, b.revision_ref, x, y);
    }

    fn to_code(&self) -> (r: String) {
        self.binding_id.to_code().concat(
            self.scope.to_code().concat(
                self.selector.to_code().concat(
                    self.revision_ref.to_code().as_str(),
                ).as_str(),
            ).as_str(),
        )
    }
}

impl Coded for BoundRevision {
    open spec fn code(v: BoundRevisionModel) -> Seq<char> {
        PolicyBinding::code(v.binding) + PublishedPolicyRevision::code(v.revision)
    }

    open spec fn codable(v: BoundRevisionModel) -> bool {
        &&& PolicyBinding::codable(v.binding)
        &&& PublishedPolicyRevision::codable(v.revision)
    }

    proof fn lemma_codable(value: BoundRevision) {
        PolicyBinding::lemma_codable(value.binding);
        PublishedPolicyRevision::lemma_codable(value.revision);
    }

    proof fn lemma_code_ends(
        a: BoundRevisionModel,
        b: BoundRevisionModel,
        x: Seq<char>,
        y: Seq<char>,
    ) {
        lemma_pair_code_ends::<PolicyBinding>(
            a.binding,
            b.binding,
            PublishedPolicyRevision::code(a.revision),
            PublishedPolicyRevision::code(b.revision),
            x,
            y,
        );
        PublishedPolicyRevision::lemma_code_ends(a.revision, b.revision, x, y);
    }

    fn to_code(&self) -> (r: String) {
        self.binding.to_code().concat(self.revision.to_code().as_str())
    }
}

} // verus!

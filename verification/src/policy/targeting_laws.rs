//! Which devices a binding is for.
use vstd::prelude::*;

use super::diagnostics::{DiagnosticCode, DiagnosticSeverity, PolicyDiagnosticModel};
use super::resolve::{applicable, resolution, selection_notes};
use super::target::{
    binding_applies, binding_notes, first_unobservable, names_unknown_family, names_unknown_signal,
    scope_level, BoundRevision, BoundRevisionModel, DeviceContextModel, PolicyBindingModel,
    TargetScopeModel,
};
use crate::capabilities::{declared_observable, CapabilitySignalModel, SignalAvailability};
use crate::model::Tag;
use crate::order::{key_before, placed, stably_sorted, Sortable};

verus! {

/// Whether a device belongs to what a scope names: the organisation, and
/// within it the team or the project; or the device by its own identifier. A
/// local user's scope names every device.
pub open spec fn belongs(ctx: DeviceContextModel, scope: TargetScopeModel) -> bool {
    &&& scope matches TargetScopeModel::Org { org_id } ==> ctx.org_id == Some(org_id)
    &&& scope matches TargetScopeModel::Team { org_id, team_id } ==> ctx.org_id == Some(org_id)
        && ctx.team_ids.contains(team_id)
    &&& scope matches TargetScopeModel::Project { org_id, project_id } ==> ctx.org_id == Some(
        org_id,
    ) && ctx.project_ids.contains(project_id)
    &&& scope matches TargetScopeModel::Device { device_id } ==> ctx.device_id == device_id
}

/// Whether the first declaration about a signal class says that it is
/// available.
pub open spec fn observable(signals: Seq<CapabilitySignalModel>, class: Tag) -> bool {
    exists|k: int|
        0 <= k < signals.len() && (#[trigger] signals[k]).class == class && signals[k].state
            == SignalAvailability::Available.deep_view() && forall|j: int|
            0 <= j < k ==> (#[trigger] signals[j]).class != class
}

/// Whether a family is one that this binary does not recognise.
pub open spec fn unknown_family(family: Tag) -> bool {
    family.index == 3
}

/// Whether a signal class is one that this binary does not recognise.
pub open spec fn unknown_signal(class: Tag) -> bool {
    class.index == 11
}

/// Whether a device has the provider a binding asks for, if it asks for some.
pub open spec fn provider_wanted(ctx: DeviceContextModel, binding: PolicyBindingModel) -> bool {
    binding.selector.providers matches Some(providers) ==> exists|i: int|
        0 <= i < providers.len() && #[trigger] providers[i] == ctx.provider
}

/// Whether a device runs on a family a binding asks for, if it asks for some
/// and knows what it asks for.
pub open spec fn family_wanted(ctx: DeviceContextModel, binding: PolicyBindingModel) -> bool {
    binding.selector.os_families matches Some(families) ==> families.contains(ctx.os_family) || (
    exists|f: Tag| #[trigger] families.contains(f) && unknown_family(f))
}

/// Whether a device exposes all signals a binding asks for, if it asks for
/// some and knows what it asks for.
pub open spec fn signals_wanted(ctx: DeviceContextModel, binding: PolicyBindingModel) -> bool {
    binding.selector.requires_signals matches Some(classes) ==> (forall|i: int|
        0 <= i < classes.len() ==> observable(ctx.capabilities.signals, #[trigger] classes[i]))
        || (exists|i: int| 0 <= i < classes.len() && unknown_signal(#[trigger] classes[i]))
}

proof fn lemma_observable(signals: Seq<CapabilitySignalModel>, class: Tag)
    ensures
        declared_observable(signals, class) == observable(signals, class),
    decreases signals.len(),
{
    if signals.len() > 0 {
        let rest = signals.drop_first();
        lemma_observable(rest, class);
        assert forall|j: int| 0 <= j < rest.len() implies rest[j] == #[trigger] signals[j + 1] by {}
        if signals[0].class == class {
            if observable(signals, class) {
                let k = choose|k: int|
                    0 <= k < signals.len() && (#[trigger] signals[k]).class == class
                        && signals[k].state == SignalAvailability::Available.deep_view()
                        && forall|j: int| 0 <= j < k ==> (#[trigger] signals[j]).class != class;
                if k > 0 {
                    assert(signals[0].class != class);
                }
            }
            if declared_observable(signals, class) {
                assert(signals[0].state == SignalAvailability::Available.deep_view());
            }
        } else {
            if observable(rest, class) {
                let k = choose|k: int|
                    0 <= k < rest.len() && (#[trigger] rest[k]).class == class && rest[k].state
                        == SignalAvailability::Available.deep_view() && forall|j: int|
                        0 <= j < k ==> (#[trigger] rest[j]).class != class;
                assert(signals[k + 1] == rest[k]);
                assert forall|j: int| 0 <= j < k + 1 implies (#[trigger] signals[j]).class
                    != class by {
                    if j > 0 {
                        assert(rest[j - 1] == signals[j]);
                    }
                }
            }
            if observable(signals, class) {
                let k = choose|k: int|
                    0 <= k < signals.len() && (#[trigger] signals[k]).class == class
                        && signals[k].state == SignalAvailability::Available.deep_view()
                        && forall|j: int| 0 <= j < k ==> (#[trigger] signals[j]).class != class;
                assert(k > 0);
                assert(rest[k - 1] == signals[k]);
                assert forall|j: int| 0 <= j < k - 1 implies (#[trigger] rest[j]).class != class by {
                    assert(rest[j] == signals[j + 1]);
                }
            }
        }
    }
}

proof fn lemma_first_unobservable(ctx: DeviceContextModel, classes: Seq<Tag>)
    ensures
        first_unobservable(ctx.capabilities, classes) is None <==> forall|i: int|
            0 <= i < classes.len() ==> observable(ctx.capabilities.signals, #[trigger] classes[i]),
        first_unobservable(ctx.capabilities, classes) matches Some(class) ==> classes.contains(
            class,
        ) && !observable(ctx.capabilities.signals, class),
    decreases classes.len(),
{
    if classes.len() > 0 {
        let rest = classes.drop_first();
        lemma_first_unobservable(ctx, rest);
        lemma_observable(ctx.capabilities.signals, classes[0]);
        assert forall|i: int| 0 <= i < rest.len() implies rest[i] == #[trigger] classes[i + 1] by {}
        assert(classes.contains(classes[0]));
        if forall|i: int|
            0 <= i < rest.len() ==> observable(ctx.capabilities.signals, #[trigger] rest[i]) {
            if observable(ctx.capabilities.signals, classes[0]) {
                assert forall|i: int| 0 <= i < classes.len() implies observable(
                    ctx.capabilities.signals,
                    #[trigger] classes[i],
                ) by {
                    if i > 0 {
                        assert(rest[i - 1] == classes[i]);
                    }
                }
            }
        } else {
            let i = choose|i: int|
                0 <= i < rest.len() && !observable(ctx.capabilities.signals, #[trigger] rest[i]);
            assert(classes[i + 1] == rest[i]);
        }
        match first_unobservable(ctx.capabilities, rest) {
            Some(class) => {
                let i = choose|i: int| 0 <= i < rest.len() && rest[i] == class;
                assert(classes[i + 1] == class);
            },
            None => {},
        }
    }
}

/// A binding applies exactly to the devices that belong to its scope and have
/// the provider, the family and the signals it asks for. What a newer
/// publisher asks for and this binary does not know keeps no device out.
pub proof fn law_bindings_apply_to_the_devices_they_name(
    binding: PolicyBindingModel,
    ctx: DeviceContextModel,
)
    ensures
        binding_applies(binding, ctx) <==> belongs(ctx, binding.scope) && provider_wanted(
            ctx,
            binding,
        ) && family_wanted(ctx, binding) && signals_wanted(ctx, binding),
{
    match binding.selector.providers {
        Some(providers) => {
            if providers.contains(ctx.provider) {
                let i = choose|i: int| 0 <= i < providers.len() && providers[i] == ctx.provider;
                assert(providers[i] == ctx.provider);
            }
        },
        None => {},
    }
    match binding.selector.os_families {
        Some(families) => {
            assert(names_unknown_family(families) == exists|f: Tag| #[trigger]
                families.contains(f) && unknown_family(f)) by {
                if names_unknown_family(families) {
                    let f = choose|t: Tag| #[trigger] families.contains(t) && t.index == 3;
                    assert(families.contains(f) && unknown_family(f));
                }
                if exists|f: Tag| #[trigger] families.contains(f) && unknown_family(f) {
                    let f = choose|f: Tag| #[trigger] families.contains(f) && unknown_family(f);
                    assert(families.contains(f) && f.index == 3);
                }
            }
        },
        None => {},
    }
    match binding.selector.requires_signals {
        Some(classes) => {
            lemma_first_unobservable(ctx, classes);
            assert(names_unknown_signal(classes) == exists|i: int|
                0 <= i < classes.len() && unknown_signal(#[trigger] classes[i])) by {
                if names_unknown_signal(classes) {
                    let i = choose|i: int|
                        0 <= i < classes.len() && (#[trigger] classes[i]).index == 11;
                    assert(unknown_signal(classes[i]));
                }
                if exists|i: int| 0 <= i < classes.len() && unknown_signal(#[trigger] classes[i]) {
                    let i = choose|i: int|
                        0 <= i < classes.len() && unknown_signal(#[trigger] classes[i]);
                    assert(classes[i].index == 11);
                }
            }
        },
        None => {},
    }
}

/// What a binding reports about a device. One that does not apply is silent,
/// unless the device has everything but a signal; one that applies is silent,
/// unless it asks for something this binary does not know. Either report is a
/// warning that names the binding.
pub proof fn law_bindings_report_what_they_miss(
    binding: PolicyBindingModel,
    ctx: DeviceContextModel,
)
    ensures
        ({
            let reached = belongs(ctx, binding.scope) && provider_wanted(ctx, binding)
                && family_wanted(ctx, binding);
            let unknown = (binding.selector.os_families matches Some(families) && exists|f: Tag|
                #[trigger]
                families.contains(f) && unknown_family(f)) || (
            binding.selector.requires_signals matches Some(classes) && exists|i: int|
                0 <= i < classes.len() && unknown_signal(#[trigger] classes[i]));
            let notes = binding_notes(binding, ctx);
            &&& !reached ==> notes.len() == 0
            &&& reached && !signals_wanted(ctx, binding) ==> notes.len() == 1 && notes[0].code
                == DiagnosticCode::RequiredSignalUnavailable
            &&& reached && signals_wanted(ctx, binding) && unknown ==> notes.len() == 1
                && notes[0].code == DiagnosticCode::SelectorNotUnderstood
            &&& reached && signals_wanted(ctx, binding) && !unknown ==> notes.len() == 0
            &&& notes.len() == 1 ==> notes[0].severity == DiagnosticSeverity::Warning
                && notes[0].bindings == seq![binding.binding_id] && notes[0].field is None
        }),
{
    law_bindings_apply_to_the_devices_they_name(binding, ctx);
    match binding.selector.os_families {
        Some(families) => {
            if names_unknown_family(families) {
                let f = choose|t: Tag| #[trigger] families.contains(t) && t.index == 3;
                assert(families.contains(f) && unknown_family(f));
            }
            if exists|f: Tag| #[trigger] families.contains(f) && unknown_family(f) {
                let f = choose|f: Tag| #[trigger] families.contains(f) && unknown_family(f);
                assert(families.contains(f) && f.index == 3);
            }
        },
        None => {},
    }
    match binding.selector.providers {
        Some(providers) => {
            if providers.contains(ctx.provider) {
                let i = choose|i: int| 0 <= i < providers.len() && providers[i] == ctx.provider;
                assert(providers[i] == ctx.provider);
            }
        },
        None => {},
    }
    match binding.selector.requires_signals {
        Some(classes) => {
            lemma_first_unobservable(ctx, classes);
            if names_unknown_signal(classes) {
                let i = choose|i: int|
                    0 <= i < classes.len() && (#[trigger] classes[i]).index == 11;
                assert(unknown_signal(classes[i]));
            }
            if exists|i: int| 0 <= i < classes.len() && unknown_signal(#[trigger] classes[i]) {
                let i = choose|i: int|
                    0 <= i < classes.len() && unknown_signal(#[trigger] classes[i]);
                assert(classes[i].index == 11);
            }
        },
        None => {},
    }
}

proof fn lemma_applicable_of_both(
    a: Seq<BoundRevisionModel>,
    b: Seq<BoundRevisionModel>,
    ctx: DeviceContextModel,
)
    ensures
        applicable(a + b, ctx) == applicable(a, ctx) + applicable(b, ctx),
        selection_notes(a + b, ctx) == selection_notes(a, ctx) + selection_notes(b, ctx),
    decreases b.len(),
{
    if b.len() == 0 {
        assert(a + b =~= a);
        assert(applicable(a, ctx) + applicable(b, ctx) =~= applicable(a, ctx));
        assert(selection_notes(a, ctx) + selection_notes(b, ctx) =~= selection_notes(a, ctx));
    } else {
        lemma_applicable_of_both(a, b.drop_last(), ctx);
        assert((a + b).drop_last() =~= a + b.drop_last());
        assert((a + b).last() == b.last());
        assert(applicable(a + b, ctx) =~= applicable(a, ctx) + applicable(b, ctx));
        assert(selection_notes(a + b, ctx) =~= selection_notes(a, ctx) + selection_notes(b, ctx));
    }
}

proof fn lemma_placed_unheard(
    sorted: Seq<BoundRevisionModel>,
    b: BoundRevisionModel,
    ctx: DeviceContextModel,
)
    requires
        applicable(seq![b], ctx).len() == 0,
        selection_notes(seq![b], ctx).len() == 0,
    ensures
        applicable(placed::<&BoundRevision>(sorted, b), ctx) == applicable(sorted, ctx),
        selection_notes(placed::<&BoundRevision>(sorted, b), ctx) == selection_notes(sorted, ctx),
    decreases sorted.len(),
{
    let none = Seq::<BoundRevisionModel>::empty();
    assert(applicable(seq![b], ctx) =~= none);
    assert(selection_notes(seq![b], ctx) =~= Seq::<PolicyDiagnosticModel>::empty());
    if sorted.len() == 0 {
        assert(applicable(sorted, ctx) =~= none);
        assert(selection_notes(sorted, ctx) =~= Seq::<PolicyDiagnosticModel>::empty());
    } else {
        let rest = sorted.drop_first();
        let head = seq![sorted[0]];
        assert(sorted =~= head + rest);
        lemma_applicable_of_both(head, rest, ctx);
        if key_before(
            <&BoundRevision>::sort_key(sorted[0]),
            <&BoundRevision>::sort_key(b),
        ) {
            lemma_placed_unheard(rest, b, ctx);
            lemma_applicable_of_both(head, placed::<&BoundRevision>(rest, b), ctx);
        } else {
            lemma_applicable_of_both(seq![b], sorted, ctx);
            assert(none + applicable(sorted, ctx) =~= applicable(sorted, ctx));
            assert(Seq::<PolicyDiagnosticModel>::empty() + selection_notes(sorted, ctx)
                =~= selection_notes(sorted, ctx));
        }
    }
}

/// A binding whose scope a device does not belong to, or that asks for another
/// provider or family, changes nothing about what is resolved for the device:
/// it is as if the binding were not there.
pub proof fn law_bindings_for_others_change_nothing(
    b: BoundRevisionModel,
    bound: Seq<BoundRevisionModel>,
    ctx: DeviceContextModel,
)
    requires
        !belongs(ctx, b.binding.scope) || !provider_wanted(ctx, b.binding) || !family_wanted(
            ctx,
            b.binding,
        ),
    ensures
        resolution(seq![b] + bound, ctx) == resolution(bound, ctx),
{
    law_bindings_apply_to_the_devices_they_name(b.binding, ctx);
    law_bindings_report_what_they_miss(b.binding, ctx);
    reveal_with_fuel(applicable, 2);
    reveal_with_fuel(selection_notes, 2);
    let one = seq![b];
    assert(one.drop_last() =~= Seq::<BoundRevisionModel>::empty());
    assert(one.last() == b);
    assert(selection_notes(one, ctx).len() == 0);
    let all = one + bound;
    assert(all.drop_first() =~= bound);
    assert(all[0] == b);
    assert(stably_sorted::<&BoundRevision>(all) == placed::<&BoundRevision>(
        stably_sorted::<&BoundRevision>(bound),
        b,
    ));
    lemma_placed_unheard(stably_sorted::<&BoundRevision>(bound), b, ctx);
}

/// The level of a scope follows what it names.
pub proof fn law_levels_follow_the_scope(scope: TargetScopeModel)
    ensures
        scope_level(scope) is Org <==> scope is Org,
        scope_level(scope) is Team <==> scope is Team,
        scope_level(scope) is Project <==> scope is Project,
        scope_level(scope) is Device <==> scope is Device,
        scope_level(scope) is LocalUser <==> scope is LocalUser,
{
}

} // verus!

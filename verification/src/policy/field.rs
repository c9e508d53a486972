//! The fields of [`PolicyContent`], one value type for all of them, and the
//! strictness order each field has.
use vstd::prelude::*;

use super::content::{
    find_rule, first_rule, min_of, normalize_signal_classes, normalized_signals, smaller,
    union_signal_classes, EgressContentClass, EnforcementRule, EnforcementRuleModel, PolicyContent,
    PolicyContentModel, RedactionProfile, ResolvedValues, ResolvedValuesModel, RiskClass,
    RiskClassSeconds, VerdictOutcomes,
};
use crate::capabilities::SignalClass;
use crate::code::{known_tag_to_code, lemma_tag_code_ends, tag_code, tag_to_code, Coded};
use crate::json::{json_string, quote_json, JsonText};
use crate::model::{known_tag, vec_contains, Deep, Tag};
use crate::order::{
    key_before, stable_sort, stably_sorted, tag_key, OrderKey, Ordered, SortedSet, Sortable,
};
use crate::text::{quote_debug, str_before, str_debug};

verus! {

/// Names one field of [`PolicyContent`], for pins, diagnostics and provenance.
#[derive(Debug, Clone, PartialEq, Eq, PartialOrd, Ord)]
pub enum PolicyFieldId {
    CollectionLongitudinalAggregationAllowed,
    EgressCloudSyncAllowed,
    EgressRedactionProfile,
    EgressAllowedContent,
    SensorsDisabled,
    SensorsRequiredSignals,
    EnforcementRules,
    CacheMaxAgeByRisk,
    CacheOfflineGraceSeconds,
    /// A field this binary does not know, pinned by a newer publisher.
    Unrecognized(String),
}

impl DeepView for PolicyFieldId {
    type V = Tag;

    open spec fn deep_view(&self) -> Tag {
        match self {
            PolicyFieldId::CollectionLongitudinalAggregationAllowed => known_tag(0),
            PolicyFieldId::EgressCloudSyncAllowed => known_tag(1),
            PolicyFieldId::EgressRedactionProfile => known_tag(2),
            PolicyFieldId::EgressAllowedContent => known_tag(3),
            PolicyFieldId::SensorsDisabled => known_tag(4),
            PolicyFieldId::SensorsRequiredSignals => known_tag(5),
            PolicyFieldId::EnforcementRules => known_tag(6),
            PolicyFieldId::CacheMaxAgeByRisk => known_tag(7),
            PolicyFieldId::CacheOfflineGraceSeconds => known_tag(8),
            PolicyFieldId::Unrecognized(s) => Tag { index: 9, text: s@ },
        }
    }
}

impl PolicyFieldId {
    fn index(&self) -> (r: u8)
        ensures
            r == self.deep_view().index,
    {
        match self {
            PolicyFieldId::CollectionLongitudinalAggregationAllowed => 0,
            PolicyFieldId::EgressCloudSyncAllowed => 1,
            PolicyFieldId::EgressRedactionProfile => 2,
            PolicyFieldId::EgressAllowedContent => 3,
            PolicyFieldId::SensorsDisabled => 4,
            PolicyFieldId::SensorsRequiredSignals => 5,
            PolicyFieldId::EnforcementRules => 6,
            PolicyFieldId::CacheMaxAgeByRisk => 7,
            PolicyFieldId::CacheOfflineGraceSeconds => 8,
            PolicyFieldId::Unrecognized(_) => 9,
        }
    }

    /// The name a value is written under.
    pub open spec fn wire_text(v: Tag) -> Seq<char> {
        if v.index == 0 {
            "collection_longitudinal_aggregation_allowed"@
        } else if v.index == 1 {
            "egress_cloud_sync_allowed"@
        } else if v.index == 2 {
            "egress_redaction_profile"@
        } else if v.index == 3 {
            "egress_allowed_content"@
        } else if v.index == 4 {
            "sensors_disabled"@
        } else if v.index == 5 {
            "sensors_required_signals"@
        } else if v.index == 6 {
            "enforcement_rules"@
        } else if v.index == 7 {
            "cache_max_age_by_risk"@
        } else if v.index == 8 {
            "cache_offline_grace_seconds"@
        } else {
            v.text
        }
    }

    /// The name this value is written under.
    pub fn wire_tag(&self) -> (r: String)
        ensures
            r@ == Self::wire_text(self.deep_view()),
    {
        match self {
            PolicyFieldId::CollectionLongitudinalAggregationAllowed => "collection_longitudinal_aggregation_allowed".to_owned(),
            PolicyFieldId::EgressCloudSyncAllowed => "egress_cloud_sync_allowed".to_owned(),
            PolicyFieldId::EgressRedactionProfile => "egress_redaction_profile".to_owned(),
            PolicyFieldId::EgressAllowedContent => "egress_allowed_content".to_owned(),
            PolicyFieldId::SensorsDisabled => "sensors_disabled".to_owned(),
            PolicyFieldId::SensorsRequiredSignals => "sensors_required_signals".to_owned(),
            PolicyFieldId::EnforcementRules => "enforcement_rules".to_owned(),
            PolicyFieldId::CacheMaxAgeByRisk => "cache_max_age_by_risk".to_owned(),
            PolicyFieldId::CacheOfflineGraceSeconds => "cache_offline_grace_seconds".to_owned(),
            PolicyFieldId::Unrecognized(s) => s.clone(),
        }
    }

    /// How diagnostics spell a value.
    pub open spec fn debug_text(v: Tag) -> Seq<char> {
        if v.index == 0 {
            "CollectionLongitudinalAggregationAllowed"@
        } else if v.index == 1 {
            "EgressCloudSyncAllowed"@
        } else if v.index == 2 {
            "EgressRedactionProfile"@
        } else if v.index == 3 {
            "EgressAllowedContent"@
        } else if v.index == 4 {
            "SensorsDisabled"@
        } else if v.index == 5 {
            "SensorsRequiredSignals"@
        } else if v.index == 6 {
            "EnforcementRules"@
        } else if v.index == 7 {
            "CacheMaxAgeByRisk"@
        } else if v.index == 8 {
            "CacheOfflineGraceSeconds"@
        } else {
            "Unrecognized("@ + str_debug(v.text) + ")"@
        }
    }

    /// How diagnostics spell this value.
    pub(crate) fn debug_name(&self) -> (r: String)
        ensures
            r@ == Self::debug_text(self.deep_view()),
    {
        match self {
            PolicyFieldId::CollectionLongitudinalAggregationAllowed => "CollectionLongitudinalAggregationAllowed".to_owned(),
            PolicyFieldId::EgressCloudSyncAllowed => "EgressCloudSyncAllowed".to_owned(),
            PolicyFieldId::EgressRedactionProfile => "EgressRedactionProfile".to_owned(),
            PolicyFieldId::EgressAllowedContent => "EgressAllowedContent".to_owned(),
            PolicyFieldId::SensorsDisabled => "SensorsDisabled".to_owned(),
            PolicyFieldId::SensorsRequiredSignals => "SensorsRequiredSignals".to_owned(),
            PolicyFieldId::EnforcementRules => "EnforcementRules".to_owned(),
            PolicyFieldId::CacheMaxAgeByRisk => "CacheMaxAgeByRisk".to_owned(),
            PolicyFieldId::CacheOfflineGraceSeconds => "CacheOfflineGraceSeconds".to_owned(),
            PolicyFieldId::Unrecognized(s) => "Unrecognized(".to_owned().concat(quote_debug(s.as_str()).as_str()).concat(
                ")",
            ),
        }
    }
}

impl Deep for PolicyFieldId {
    fn deep_clone(&self) -> (r: Self) {
        match self {
            PolicyFieldId::CollectionLongitudinalAggregationAllowed => PolicyFieldId::CollectionLongitudinalAggregationAllowed,
            PolicyFieldId::EgressCloudSyncAllowed => PolicyFieldId::EgressCloudSyncAllowed,
            PolicyFieldId::EgressRedactionProfile => PolicyFieldId::EgressRedactionProfile,
            PolicyFieldId::EgressAllowedContent => PolicyFieldId::EgressAllowedContent,
            PolicyFieldId::SensorsDisabled => PolicyFieldId::SensorsDisabled,
            PolicyFieldId::SensorsRequiredSignals => PolicyFieldId::SensorsRequiredSignals,
            PolicyFieldId::EnforcementRules => PolicyFieldId::EnforcementRules,
            PolicyFieldId::CacheMaxAgeByRisk => PolicyFieldId::CacheMaxAgeByRisk,
            PolicyFieldId::CacheOfflineGraceSeconds => PolicyFieldId::CacheOfflineGraceSeconds,
            PolicyFieldId::Unrecognized(s) => PolicyFieldId::Unrecognized(s.clone()),
        }
    }

    fn deep_eq(&self, other: &Self) -> (r: bool) {
        match (self, other) {
            (PolicyFieldId::Unrecognized(a), PolicyFieldId::Unrecognized(b)) => *a == *b,
            _ => self.index() == other.index(),
        }
    }
}

impl Sortable for PolicyFieldId {
    open spec fn sort_key(v: Tag) -> OrderKey {
        tag_key(v)
    }

    fn sorts_before(&self, other: &Self) -> (r: bool) {
        match (self, other) {
            (PolicyFieldId::Unrecognized(a), PolicyFieldId::Unrecognized(b)) => str_before(a.as_str(), b.as_str()),
            _ => self.index() < other.index(),
        }
    }
}

impl Ordered for PolicyFieldId {
    proof fn key_is_injective(a: Tag, b: Tag) {
    }
}

impl PolicyFieldId {
    /// The known field at a position, in declaration order.
    pub fn at(index: usize) -> (r: PolicyFieldId)
        requires
            index < 9,
        ensures
            r.deep_view() == known_tag(index as int),
    {
        match index {
            0 => PolicyFieldId::CollectionLongitudinalAggregationAllowed,
            1 => PolicyFieldId::EgressCloudSyncAllowed,
            2 => PolicyFieldId::EgressRedactionProfile,
            3 => PolicyFieldId::EgressAllowedContent,
            4 => PolicyFieldId::SensorsDisabled,
            5 => PolicyFieldId::SensorsRequiredSignals,
            6 => PolicyFieldId::EnforcementRules,
            7 => PolicyFieldId::CacheMaxAgeByRisk,
            _ => PolicyFieldId::CacheOfflineGraceSeconds,
        }
    }

    /// Every known field, in declaration order.
    pub fn all() -> (r: Vec<PolicyFieldId>)
        ensures
            r.deep_view() == Seq::new(9, |i: int| known_tag(i)),
    {
        let mut out: Vec<PolicyFieldId> = Vec::new();
        let mut i: usize = 0;
        while i < 9
            invariant
                i <= 9,
                out.deep_view() == Seq::new(i as nat, |k: int| known_tag(k)),
            decreases 9 - i,
        {
            let ghost before = out;
            out.push(PolicyFieldId::at(i));
            i = i + 1;
            assert(out.deep_view() =~= before.deep_view().push(known_tag(i as int - 1)));
            assert(out.deep_view() =~= Seq::new(i as nat, |k: int| known_tag(k)));
        }
        out
    }
}

/// The value of one field, independent of the scope it lives in.
#[derive(Debug, Clone, PartialEq, Eq)]
pub enum FieldValue {
    Bool(bool),
    RedactionProfile(RedactionProfile),
    AllowedContent(SortedSet<EgressContentClass>),
    SensorsDisabled(SortedSet<String>),
    RequiredSignals(Vec<SignalClass>),
    EnforcementRules(Vec<EnforcementRule>),
    CacheMaxAgeByRisk(RiskClassSeconds),
    CacheOfflineGraceSeconds(u32),
}

/// The mathematical value of a [`FieldValue`].
#[verifier::ext_equal]
pub enum FieldModel {
    Bool(bool),
    RedactionProfile(RedactionProfile),
    AllowedContent(Set<Tag>),
    SensorsDisabled(Set<Seq<char>>),
    RequiredSignals(Seq<Tag>),
    EnforcementRules(Seq<EnforcementRuleModel>),
    CacheMaxAgeByRisk(RiskClassSeconds),
    CacheOfflineGraceSeconds(u32),
}

impl DeepView for FieldValue {
    type V = FieldModel;

    open spec fn deep_view(&self) -> FieldModel {
        match self {
            FieldValue::Bool(v) => FieldModel::Bool(v.deep_view()),
            FieldValue::RedactionProfile(v) => FieldModel::RedactionProfile(v.deep_view()),
            FieldValue::AllowedContent(v) => FieldModel::AllowedContent(v.deep_view()),
            FieldValue::SensorsDisabled(v) => FieldModel::SensorsDisabled(v.deep_view()),
            FieldValue::RequiredSignals(v) => FieldModel::RequiredSignals(v.deep_view()),
            FieldValue::EnforcementRules(v) => FieldModel::EnforcementRules(v.deep_view()),
            FieldValue::CacheMaxAgeByRisk(v) => FieldModel::CacheMaxAgeByRisk(v.deep_view()),
            FieldValue::CacheOfflineGraceSeconds(v) => FieldModel::CacheOfflineGraceSeconds(v.deep_view()),
        }
    }
}

impl Deep for FieldValue {
    fn deep_clone(&self) -> (r: Self) {
        match self {
            FieldValue::Bool(v) => FieldValue::Bool(v.deep_clone()),
            FieldValue::RedactionProfile(v) => FieldValue::RedactionProfile(v.deep_clone()),
            FieldValue::AllowedContent(v) => FieldValue::AllowedContent(v.deep_clone()),
            FieldValue::SensorsDisabled(v) => FieldValue::SensorsDisabled(v.deep_clone()),
            FieldValue::RequiredSignals(v) => FieldValue::RequiredSignals(v.deep_clone()),
            FieldValue::EnforcementRules(v) => FieldValue::EnforcementRules(v.deep_clone()),
            FieldValue::CacheMaxAgeByRisk(v) => FieldValue::CacheMaxAgeByRisk(v.deep_clone()),
            FieldValue::CacheOfflineGraceSeconds(v) => FieldValue::CacheOfflineGraceSeconds(v.deep_clone()),
        }
    }

    fn deep_eq(&self, other: &Self) -> (r: bool) {
        match (self, other) {
            (FieldValue::Bool(a), FieldValue::Bool(b)) => a.deep_eq(b),
            (FieldValue::RedactionProfile(a), FieldValue::RedactionProfile(b)) => a.deep_eq(b),
            (FieldValue::AllowedContent(a), FieldValue::AllowedContent(b)) => a.deep_eq(b),
            (FieldValue::SensorsDisabled(a), FieldValue::SensorsDisabled(b)) => a.deep_eq(b),
            (FieldValue::RequiredSignals(a), FieldValue::RequiredSignals(b)) => a.deep_eq(b),
            (FieldValue::EnforcementRules(a), FieldValue::EnforcementRules(b)) => a.deep_eq(b),
            (FieldValue::CacheMaxAgeByRisk(a), FieldValue::CacheMaxAgeByRisk(b)) => a.deep_eq(b),
            (FieldValue::CacheOfflineGraceSeconds(a), FieldValue::CacheOfflineGraceSeconds(b)) => a.deep_eq(b),
            _ => false,
        }
    }
}

/// What `content` says about a field, in canonical form: signal classes
/// normalized, rules sorted by action class.
pub open spec fn field_of(content: PolicyContentModel, field: Tag) -> Option<FieldModel> {
    if field.index == 0 {
        match content.collection.longitudinal_aggregation_allowed {
            Some(v) => Some(FieldModel::Bool(v)),
            None => None,
        }
    } else if field.index == 1 {
        match content.egress.cloud_sync_allowed {
            Some(v) => Some(FieldModel::Bool(v)),
            None => None,
        }
    } else if field.index == 2 {
        match content.egress.redaction_profile {
            Some(v) => Some(FieldModel::RedactionProfile(v)),
            None => None,
        }
    } else if field.index == 3 {
        match content.egress.allowed_content {
            Some(v) => Some(FieldModel::AllowedContent(v)),
            None => None,
        }
    } else if field.index == 4 {
        match content.sensors.disabled {
            Some(v) => Some(FieldModel::SensorsDisabled(v)),
            None => None,
        }
    } else if field.index == 5 {
        match content.sensors.required_signals {
            Some(v) => Some(FieldModel::RequiredSignals(normalized_signals(v))),
            None => None,
        }
    } else if field.index == 6 {
        match content.enforcement.rules {
            Some(v) => Some(FieldModel::EnforcementRules(stably_sorted::<EnforcementRule>(v))),
            None => None,
        }
    } else if field.index == 7 {
        match content.cache.max_age_seconds_by_risk {
            Some(v) => Some(FieldModel::CacheMaxAgeByRisk(v)),
            None => None,
        }
    } else if field.index == 8 {
        match content.cache.offline_grace_seconds {
            Some(v) => Some(FieldModel::CacheOfflineGraceSeconds(v)),
            None => None,
        }
    } else {
        None
    }
}

/// Reads one field off `content`, in canonical form.
pub fn get_field(content: &PolicyContent, field: &PolicyFieldId) -> (r: Option<FieldValue>)
    ensures
        r.deep_view() == field_of(content.deep_view(), field.deep_view()),
{
    match field {
        PolicyFieldId::CollectionLongitudinalAggregationAllowed => match content.collection.longitudinal_aggregation_allowed {
            Some(v) => Some(FieldValue::Bool(v)),
            None => None,
        },
        PolicyFieldId::EgressCloudSyncAllowed => match content.egress.cloud_sync_allowed {
            Some(v) => Some(FieldValue::Bool(v)),
            None => None,
        },
        PolicyFieldId::EgressRedactionProfile => match content.egress.redaction_profile {
            Some(v) => Some(FieldValue::RedactionProfile(v)),
            None => None,
        },
        PolicyFieldId::EgressAllowedContent => match &content.egress.allowed_content {
            Some(v) => Some(FieldValue::AllowedContent(v.deep_clone())),
            None => None,
        },
        PolicyFieldId::SensorsDisabled => match &content.sensors.disabled {
            Some(v) => Some(FieldValue::SensorsDisabled(v.deep_clone())),
            None => None,
        },
        PolicyFieldId::SensorsRequiredSignals => match &content.sensors.required_signals {
            Some(v) => Some(FieldValue::RequiredSignals(normalize_signal_classes(v.deep_clone()))),
            None => None,
        },
        PolicyFieldId::EnforcementRules => match &content.enforcement.rules {
            Some(v) => Some(FieldValue::EnforcementRules(stable_sort(v.deep_clone()))),
            None => None,
        },
        PolicyFieldId::CacheMaxAgeByRisk => match content.cache.max_age_seconds_by_risk {
            Some(v) => Some(FieldValue::CacheMaxAgeByRisk(v)),
            None => None,
        },
        PolicyFieldId::CacheOfflineGraceSeconds => match content.cache.offline_grace_seconds {
            Some(v) => Some(FieldValue::CacheOfflineGraceSeconds(v)),
            None => None,
        },
        PolicyFieldId::Unrecognized(_) => None,
    }
}

/// `values` with one field replaced. A value of a shape the field does not
/// have changes nothing.
pub open spec fn with_field(
    values: ResolvedValuesModel,
    field: Tag,
    value: FieldModel,
) -> ResolvedValuesModel {
    match value {
        FieldModel::Bool(b) => if field.index == 0 {
            ResolvedValuesModel { longitudinal_aggregation_allowed: b, ..values }
        } else if field.index == 1 {
            ResolvedValuesModel { cloud_sync_allowed: b, ..values }
        } else {
            values
        },
        FieldModel::RedactionProfile(p) => if field.index == 2 {
            ResolvedValuesModel { redaction_profile: p, ..values }
        } else {
            values
        },
        FieldModel::AllowedContent(s) => if field.index == 3 {
            ResolvedValuesModel { allowed_content: s, ..values }
        } else {
            values
        },
        FieldModel::SensorsDisabled(s) => if field.index == 4 {
            ResolvedValuesModel { sensors_disabled: s, ..values }
        } else {
            values
        },
        FieldModel::RequiredSignals(s) => if field.index == 5 {
            ResolvedValuesModel { sensors_required_signals: s, ..values }
        } else {
            values
        },
        FieldModel::EnforcementRules(s) => if field.index == 6 {
            ResolvedValuesModel { enforcement_rules: s, ..values }
        } else {
            values
        },
        FieldModel::CacheMaxAgeByRisk(v) => if field.index == 7 {
            ResolvedValuesModel { cache_max_age_seconds_by_risk: v, ..values }
        } else {
            values
        },
        FieldModel::CacheOfflineGraceSeconds(v) => if field.index == 8 {
            ResolvedValuesModel { cache_offline_grace_seconds: v, ..values }
        } else {
            values
        },
    }
}

pub(crate) fn apply_field_to_resolved(
    values: ResolvedValues,
    field: &PolicyFieldId,
    value: FieldValue,
) -> (r: ResolvedValues)
    ensures
        r.deep_view() == with_field(values.deep_view(), field.deep_view(), value.deep_view()),
{
    let mut out = values;
    match (field, value) {
        (PolicyFieldId::CollectionLongitudinalAggregationAllowed, FieldValue::Bool(b)) => {
            out.longitudinal_aggregation_allowed = b;
        },
        (PolicyFieldId::EgressCloudSyncAllowed, FieldValue::Bool(b)) => {
            out.cloud_sync_allowed = b;
        },
        (PolicyFieldId::EgressRedactionProfile, FieldValue::RedactionProfile(p)) => {
            out.redaction_profile = p;
        },
        (PolicyFieldId::EgressAllowedContent, FieldValue::AllowedContent(s)) => {
            out.allowed_content = s;
        },
        (PolicyFieldId::SensorsDisabled, FieldValue::SensorsDisabled(s)) => {
            out.sensors_disabled = s;
        },
        (PolicyFieldId::SensorsRequiredSignals, FieldValue::RequiredSignals(v)) => {
            out.sensors_required_signals = v;
        },
        (PolicyFieldId::EnforcementRules, FieldValue::EnforcementRules(v)) => {
            out.enforcement_rules = v;
        },
        (PolicyFieldId::CacheMaxAgeByRisk, FieldValue::CacheMaxAgeByRisk(v)) => {
            out.cache_max_age_seconds_by_risk = v;
        },
        (PolicyFieldId::CacheOfflineGraceSeconds, FieldValue::CacheOfflineGraceSeconds(v)) => {
            out.cache_offline_grace_seconds = v;
        },
        _ => {},
    }
    out
}

/// Two rules for one action class as one rule, as strict as both.
pub open spec fn combined_rule(
    a: EnforcementRuleModel,
    b: EnforcementRuleModel,
) -> EnforcementRuleModel {
    EnforcementRuleModel {
        action_class: a.action_class,
        risk_class: RiskClass::higher(a.risk_class, b.risk_class),
        outcomes: VerdictOutcomes::met(a.outcomes, b.outcomes),
    }
}

/// `rules`, ascending by action class, with one more rule: combined with the
/// rule of its class where there is one, put in its place otherwise.
pub open spec fn rule_merged(
    rules: Seq<EnforcementRuleModel>,
    rule: EnforcementRuleModel,
) -> Seq<EnforcementRuleModel>
    decreases rules.len(),
{
    if rules.len() == 0 {
        seq![rule]
    } else if rules[0].action_class == rule.action_class {
        seq![combined_rule(rules[0], rule)] + rules.drop_first()
    } else if key_before(tag_key(rules[0].action_class), tag_key(rule.action_class)) {
        seq![rules[0]] + rule_merged(rules.drop_first(), rule)
    } else {
        seq![rule] + rules
    }
}

/// One rule per action class, ascending, each as strict as every rule of its
/// class in `rules`.
pub open spec fn rules_merged(rules: Seq<EnforcementRuleModel>) -> Seq<EnforcementRuleModel>
    decreases rules.len(),
{
    if rules.len() == 0 {
        Seq::empty()
    } else {
        rule_merged(rules_merged(rules.drop_last()), rules.last())
    }
}

proof fn lemma_rule_merged_at(
    rules: Seq<EnforcementRuleModel>,
    rule: EnforcementRuleModel,
    p: int,
)
    requires
        0 <= p <= rules.len(),
        forall|i: int|
            0 <= i < p ==> key_before(
                tag_key((#[trigger] rules[i]).action_class),
                tag_key(rule.action_class),
            ) && rules[i].action_class != rule.action_class,
        p < rules.len() ==> !key_before(
            tag_key(rules[p].action_class),
            tag_key(rule.action_class),
        ),
    ensures
        rule_merged(rules, rule) == (if p < rules.len() && rules[p].action_class
            == rule.action_class {
            rules.update(p, combined_rule(rules[p], rule))
        } else {
            rules.insert(p, rule)
        }),
    decreases rules.len(),
{
    let expected = if p < rules.len() && rules[p].action_class == rule.action_class {
        rules.update(p, combined_rule(rules[p], rule))
    } else {
        rules.insert(p, rule)
    };
    if rules.len() == 0 {
        assert(expected =~= seq![rule]);
    } else if p == 0 {
        if rules[0].action_class == rule.action_class {
            assert(expected =~= seq![combined_rule(rules[0], rule)] + rules.drop_first());
        } else {
            assert(expected =~= seq![rule] + rules);
        }
    } else {
        let rest = rules.drop_first();
        assert(rules[0].action_class != rule.action_class);
        assert forall|i: int| 0 <= i < p - 1 implies key_before(
            tag_key((#[trigger] rest[i]).action_class),
            tag_key(rule.action_class),
        ) && rest[i].action_class != rule.action_class by {
            assert(rest[i] == rules[i + 1]);
        }
        lemma_rule_merged_at(rest, rule, p - 1);
        assert(expected =~= seq![rules[0]] + rule_merged(rest, rule));
    }
}

fn merge_rule(rules: Vec<EnforcementRule>, rule: EnforcementRule) -> (r: Vec<EnforcementRule>)
    ensures
        r.deep_view() == rule_merged(rules.deep_view(), rule.deep_view()),
{
    let mut rules = rules;
    let ghost before = rules.deep_view();
    let ghost rule_view = rule.deep_view();
    let mut p: usize = 0;
    while p < rules.len() && rules[p].action_class.sorts_before(&rule.action_class)
        invariant
            p <= rules.len(),
            rules.deep_view() == before,
            rule_view == rule.deep_view(),
            forall|i: int|
                0 <= i < p ==> key_before(
                    tag_key((#[trigger] before[i]).action_class),
                    tag_key(rule_view.action_class),
                ) && before[i].action_class != rule_view.action_class,
        decreases rules.len() - p,
    {
        proof {
            crate::order::lemma_key_irreflexive(tag_key(rule_view.action_class));
        }
        p = p + 1;
    }
    proof {
        lemma_rule_merged_at(before, rule_view, p as int);
    }
    if p < rules.len() && rules[p].action_class.deep_eq(&rule.action_class) {
        let both = EnforcementRule {
            action_class: rules[p].action_class.deep_clone(),
            risk_class: RiskClass::max_of(rules[p].risk_class, rule.risk_class),
            outcomes: VerdictOutcomes::meet(rules[p].outcomes, rule.outcomes),
        };
        let ghost both_view = both.deep_view();
        rules.set(p, both);
        assert(rules.deep_view() =~= before.update(p as int, both_view));
    } else {
        rules.insert(p, rule);
        assert(rules.deep_view() =~= before.insert(p as int, rule_view));
    }
    rules
}

/// Two rule lists as one list with one rule per action class, ascending, each
/// as strict as every rule of its class in either list.
pub(crate) fn meet_enforcement_rules(
    a: &Vec<EnforcementRule>,
    b: &Vec<EnforcementRule>,
) -> (r: Vec<EnforcementRule>)
    ensures
        r.deep_view() == rules_merged(a.deep_view() + b.deep_view()),
{
    let ghost all = a.deep_view() + b.deep_view();
    let mut out: Vec<EnforcementRule> = Vec::new();
    assert(out.deep_view() =~= Seq::<EnforcementRuleModel>::empty());
    assert(all.take(0) =~= Seq::<EnforcementRuleModel>::empty());
    let mut i: usize = 0;
    while i < a.len()
        invariant
            i <= a.len(),
            all == a.deep_view() + b.deep_view(),
            out.deep_view() == rules_merged(all.take(i as int)),
        decreases a.len() - i,
    {
        assert(all.take(i as int + 1).drop_last() =~= all.take(i as int));
        assert(all.take(i as int + 1).last() == a@[i as int].deep_view());
        out = merge_rule(out, a[i].deep_clone());
        i = i + 1;
    }
    let mut j: usize = 0;
    while j < b.len()
        invariant
            j <= b.len(),
            all == a.deep_view() + b.deep_view(),
            out.deep_view() == rules_merged(all.take(a.len() + j)),
        decreases b.len() - j,
    {
        assert(all.take(a.len() + j + 1).drop_last() =~= all.take(a.len() + j));
        assert(all.take(a.len() + j + 1).last() == b@[j as int].deep_view());
        out = merge_rule(out, b[j].deep_clone());
        j = j + 1;
    }
    assert(all.take(a.len() + b.len()) =~= all);
    out
}

/// The strictest common value of two values of one field.
pub open spec fn field_met(a: FieldModel, b: FieldModel) -> FieldModel {
    match (a, b) {
        (FieldModel::Bool(x), FieldModel::Bool(y)) => FieldModel::Bool(x && y),
        (FieldModel::RedactionProfile(x), FieldModel::RedactionProfile(y)) =>
            FieldModel::RedactionProfile(RedactionProfile::stricter(x, y)),
        (FieldModel::AllowedContent(x), FieldModel::AllowedContent(y)) =>
            FieldModel::AllowedContent(x.intersect(y)),
        (FieldModel::SensorsDisabled(x), FieldModel::SensorsDisabled(y)) =>
            FieldModel::SensorsDisabled(x.union(y)),
        (FieldModel::RequiredSignals(x), FieldModel::RequiredSignals(y)) =>
            FieldModel::RequiredSignals(normalized_signals(x + y)),
        (FieldModel::EnforcementRules(x), FieldModel::EnforcementRules(y)) =>
            FieldModel::EnforcementRules(rules_merged(x + y)),
        (FieldModel::CacheMaxAgeByRisk(x), FieldModel::CacheMaxAgeByRisk(y)) =>
            FieldModel::CacheMaxAgeByRisk(RiskClassSeconds::met(x, y)),
        (FieldModel::CacheOfflineGraceSeconds(x), FieldModel::CacheOfflineGraceSeconds(y)) =>
            FieldModel::CacheOfflineGraceSeconds(smaller(x, y)),
        _ => a,
    }
}

/// The strictest common value of two values of one field.
pub fn meet_field(a: &FieldValue, b: &FieldValue) -> (r: FieldValue)
    ensures
        r.deep_view() == field_met(a.deep_view(), b.deep_view()),
{
    match (a, b) {
        (FieldValue::Bool(x), FieldValue::Bool(y)) => FieldValue::Bool(*x && *y),
        (FieldValue::RedactionProfile(x), FieldValue::RedactionProfile(y)) =>
            FieldValue::RedactionProfile(RedactionProfile::max_of(*x, *y)),
        (FieldValue::AllowedContent(x), FieldValue::AllowedContent(y)) =>
            FieldValue::AllowedContent(x.intersection(y)),
        (FieldValue::SensorsDisabled(x), FieldValue::SensorsDisabled(y)) =>
            FieldValue::SensorsDisabled(x.union(y)),
        (FieldValue::RequiredSignals(x), FieldValue::RequiredSignals(y)) =>
            FieldValue::RequiredSignals(union_signal_classes(x.deep_clone(), y.deep_clone())),
        (FieldValue::EnforcementRules(x), FieldValue::EnforcementRules(y)) =>
            FieldValue::EnforcementRules(meet_enforcement_rules(x, y)),
        (FieldValue::CacheMaxAgeByRisk(x), FieldValue::CacheMaxAgeByRisk(y)) =>
            FieldValue::CacheMaxAgeByRisk(RiskClassSeconds::meet(*x, *y)),
        (FieldValue::CacheOfflineGraceSeconds(x), FieldValue::CacheOfflineGraceSeconds(y)) =>
            FieldValue::CacheOfflineGraceSeconds(min_of(*x, *y)),
        _ => a.deep_clone(),
    }
}

/// Whether a rule is at least as strict as another.
pub open spec fn rule_covers(a: EnforcementRuleModel, b: EnforcementRuleModel) -> bool {
    a.risk_class.rank() >= b.risk_class.rank() && VerdictOutcomes::covers(a.outcomes, b.outcomes)
}

/// Whether every rule of `floor` has a rule for its class in `candidate` that
/// is at least as strict.
pub open spec fn rules_cover(
    candidate: Seq<EnforcementRuleModel>,
    floor: Seq<EnforcementRuleModel>,
) -> bool {
    forall|i: int|
        0 <= i < floor.len() ==> (first_rule(candidate, (#[trigger] floor[i]).action_class)
            matches Some(rule) && rule_covers(rule, floor[i]))
}

/// Whether every signal class of `floor` occurs in `candidate`.
pub open spec fn signals_cover(candidate: Seq<Tag>, floor: Seq<Tag>) -> bool {
    forall|i: int| 0 <= i < floor.len() ==> candidate.contains(#[trigger] floor[i])
}

/// Whether `candidate` is at least as strict as `floor`.
pub open spec fn at_least_as_strict(candidate: FieldModel, floor: FieldModel) -> bool {
    match (candidate, floor) {
        (FieldModel::Bool(c), FieldModel::Bool(f)) => c ==> f,
        (FieldModel::RedactionProfile(c), FieldModel::RedactionProfile(f)) => c.rank() >= f.rank(),
        (FieldModel::AllowedContent(c), FieldModel::AllowedContent(f)) => c.subset_of(f),
        (FieldModel::SensorsDisabled(c), FieldModel::SensorsDisabled(f)) => f.subset_of(c),
        (FieldModel::RequiredSignals(c), FieldModel::RequiredSignals(f)) => signals_cover(c, f),
        (FieldModel::EnforcementRules(c), FieldModel::EnforcementRules(f)) => rules_cover(c, f),
        (FieldModel::CacheMaxAgeByRisk(c), FieldModel::CacheMaxAgeByRisk(f)) => c.low <= f.low
            && c.elevated <= f.elevated && c.high <= f.high && c.critical <= f.critical,
        (FieldModel::CacheOfflineGraceSeconds(c), FieldModel::CacheOfflineGraceSeconds(f)) => c
            <= f,
        _ => true,
    }
}

fn rules_at_least(
    candidate: &Vec<EnforcementRule>,
    floor: &Vec<EnforcementRule>,
) -> (r: bool)
    ensures
        r == rules_cover(candidate.deep_view(), floor.deep_view()),
{
    let ghost c = candidate.deep_view();
    let ghost f = floor.deep_view();
    let mut i: usize = 0;
    while i < floor.len()
        invariant
            i <= floor.len(),
            c == candidate.deep_view(),
            f == floor.deep_view(),
            forall|j: int|
                0 <= j < i ==> (first_rule(c, (#[trigger] f[j]).action_class) matches Some(rule)
                    && rule_covers(rule, f[j])),
        decreases floor.len() - i,
    {
        assert(f[i as int] == floor@[i as int].deep_view());
        match find_rule(candidate, &floor[i].action_class) {
            Some(rule) => {
                if !(rule.risk_class.at_least(&floor[i].risk_class) && rule.outcomes.at_least(
                    &floor[i].outcomes,
                )) {
                    return false;
                }
            },
            None => {
                return false;
            },
        }
        i = i + 1;
    }
    true
}

fn signals_at_least(candidate: &Vec<SignalClass>, floor: &Vec<SignalClass>) -> (r: bool)
    ensures
        r == signals_cover(candidate.deep_view(), floor.deep_view()),
{
    let ghost f = floor.deep_view();
    let mut i: usize = 0;
    while i < floor.len()
        invariant
            i <= floor.len(),
            f == floor.deep_view(),
            forall|j: int| 0 <= j < i ==> candidate.deep_view().contains(#[trigger] f[j]),
        decreases floor.len() - i,
    {
        assert(f[i as int] == floor@[i as int].deep_view());
        if !vec_contains(candidate, &floor[i]) {
            return false;
        }
        i = i + 1;
    }
    true
}

/// Whether `candidate` is at least as strict as `floor`.
pub fn is_at_least_as_strict(candidate: &FieldValue, floor: &FieldValue) -> (r: bool)
    ensures
        r == at_least_as_strict(candidate.deep_view(), floor.deep_view()),
{
    match (candidate, floor) {
        (FieldValue::Bool(c), FieldValue::Bool(f)) => *f || !*c,
        (FieldValue::RedactionProfile(c), FieldValue::RedactionProfile(f)) => c.at_least(f),
        (FieldValue::AllowedContent(c), FieldValue::AllowedContent(f)) => c.is_subset(f),
        (FieldValue::SensorsDisabled(c), FieldValue::SensorsDisabled(f)) => f.is_subset(c),
        (FieldValue::RequiredSignals(c), FieldValue::RequiredSignals(f)) => signals_at_least(c, f),
        (FieldValue::EnforcementRules(c), FieldValue::EnforcementRules(f)) => rules_at_least(c, f),
        (FieldValue::CacheMaxAgeByRisk(c), FieldValue::CacheMaxAgeByRisk(f)) => c.low <= f.low
            && c.elevated <= f.elevated && c.high <= f.high && c.critical <= f.critical,
        (FieldValue::CacheOfflineGraceSeconds(c), FieldValue::CacheOfflineGraceSeconds(f)) => *c
            <= *f,
        _ => true,
    }
}

impl JsonText for PolicyFieldId {
    open spec fn json_text(v: Tag) -> Seq<char> {
        json_string(PolicyFieldId::wire_text(v))
    }

    fn to_json(&self) -> (r: String) {
        quote_json(self.wire_tag().as_str())
    }
}

impl Coded for PolicyFieldId {
    open spec fn code(v: Tag) -> Seq<char> {
        tag_code(v)
    }

    open spec fn codable(v: Tag) -> bool {
        0 <= v.index
    }

    proof fn lemma_codable(value: PolicyFieldId) {
    }

    proof fn lemma_code_ends(a: Tag, b: Tag, x: Seq<char>, y: Seq<char>) {
        lemma_tag_code_ends(a, b, x, y);
    }

    fn to_code(&self) -> (r: String) {
        match self {
            PolicyFieldId::Unrecognized(s) => tag_to_code(self.index(), s.as_str()),
            _ => known_tag_to_code(self.index()),
        }
    }
}

} // verus!

use fornax_types::{
    staleness_of, staleness_of_default, Claim, Evidence, EvidenceGraph, EvidenceKind, EvidenceLink,
    EvidenceRelation, FreshnessWindow, Json, MissingEvidence, SignalAvailability, SignalClass,
    StalenessAssessment, Uuid, DEFAULT_EXIT_CODE_FRESHNESS_SECONDS,
};

fn sample_link(n: u128, relation: EvidenceRelation) -> EvidenceLink {
    EvidenceLink {
        id: Uuid::from_u128(n),
        session_id: "s1".into(),
        claim_id: Uuid::from_u128(n + 1000),
        evidence_id: Uuid::from_u128(n + 2000),
        relation,
        linked_at: "2026-01-01T00:00:00Z".into(),
    }
}

fn sample_missing() -> MissingEvidence {
    MissingEvidence {
        id: Uuid::from_u128(1),
        session_id: "s1".into(),
        claim_id: Uuid::from_u128(2),
        signal_class: SignalClass::ProcessResult,
        availability: SignalAvailability::Unavailable,
        detail: Some("no exit code sensor ran for this claim".into()),
        noted_at: "2026-01-01T00:00:00Z".into(),
    }
}

#[test]
fn evidence_graph_bundles_links_and_missing_independently() {
    let graph = EvidenceGraph {
        links: vec![
            sample_link(1, EvidenceRelation::Supports),
            sample_link(2, EvidenceRelation::Supports),
            sample_link(3, EvidenceRelation::Contradicts),
        ],
        missing: vec![sample_missing()],
    };
    assert_eq!(graph.links.len(), 3);
    assert_eq!(graph.missing.len(), 1);
    assert_eq!(
        graph.links.iter().filter(|l| l.relation == EvidenceRelation::Supports).count(),
        2
    );
}

#[test]
fn empty_evidence_graph_is_distinguishable_from_a_graph_with_only_missing_notes() {
    let nobody_looked = EvidenceGraph::default();
    let looked_but_absent = EvidenceGraph { links: vec![], missing: vec![sample_missing()] };
    assert!(nobody_looked.links.is_empty() && nobody_looked.missing.is_empty());
    assert!(looked_but_absent.links.is_empty() && !looked_but_absent.missing.is_empty());
    assert_ne!(nobody_looked, looked_but_absent);
}

#[test]
fn conflict_surfaces_when_both_supports_and_contradicts_links_exist() {
    let supports = sample_link(1, EvidenceRelation::Supports);
    let contradicts = sample_link(2, EvidenceRelation::Contradicts);
    let graph =
        EvidenceGraph { links: vec![supports.clone(), contradicts.clone()], missing: vec![] };
    let conflict = graph.conflict().expect("supports + contradicts must conflict");
    assert_eq!(conflict.supports, vec![supports]);
    assert_eq!(conflict.contradicts, vec![contradicts]);
}

#[test]
fn conflict_keeps_the_order_of_each_side_and_leaves_neutral_links_out() {
    let links = vec![
        sample_link(1, EvidenceRelation::Contradicts),
        sample_link(2, EvidenceRelation::Neutral),
        sample_link(3, EvidenceRelation::Supports),
        sample_link(4, EvidenceRelation::Contradicts),
    ];
    let conflict = EvidenceGraph { links: links.clone(), missing: vec![] }.conflict().unwrap();
    assert_eq!(conflict.supports, vec![links[2].clone()]);
    assert_eq!(conflict.contradicts, vec![links[0].clone(), links[3].clone()]);
}

#[test]
fn no_conflict_when_links_agree_or_are_absent() {
    assert!(EvidenceGraph::default().conflict().is_none());
    let all_supports = EvidenceGraph {
        links: vec![
            sample_link(1, EvidenceRelation::Supports),
            sample_link(2, EvidenceRelation::Supports),
        ],
        missing: vec![],
    };
    assert!(all_supports.conflict().is_none());
    let neutral_only =
        EvidenceGraph { links: vec![sample_link(1, EvidenceRelation::Neutral)], missing: vec![] };
    assert!(neutral_only.conflict().is_none());
}

fn claim_at(claimed_at: &str) -> Claim {
    Claim {
        id: Uuid::from_u128(1),
        session_id: "s1".into(),
        source_event_id: Uuid::from_u128(2),
        text: "the command exited successfully".into(),
        subject: "command_succeeded".into(),
        claimed_at: claimed_at.into(),
    }
}

fn evidence_at(kind: EvidenceKind, observed_at: &str) -> Evidence {
    Evidence {
        id: Uuid::from_u128(3),
        session_id: "s1".into(),
        source_event_id: Uuid::from_u128(4),
        kind,
        observed_at: observed_at.into(),
        payload: Json::Object(vec![]),
        provenance: "test".into(),
        source: None,
        extension: None,
        evidence_purged: false,
    }
}

#[test]
fn durable_evidence_kind_is_never_time_sensitive_regardless_of_age() {
    let evidence = evidence_at(EvidenceKind::FileDiff, "2025-01-01T00:00:00Z");
    let claim = claim_at("2026-01-01T00:00:00Z");
    assert_eq!(staleness_of_default(&evidence, &claim), StalenessAssessment::NotTimeSensitive);
}

#[test]
fn perishable_evidence_kind_is_stale_once_past_its_window() {
    let evidence = evidence_at(EvidenceKind::ExitCode, "2026-01-01T00:00:00Z");
    let fresh_claim = claim_at("2026-01-01T00:30:00Z");
    let stale_claim = claim_at("2026-01-01T02:00:00Z");
    assert_eq!(
        staleness_of_default(&evidence, &fresh_claim),
        StalenessAssessment::Fresh { age_seconds: 1800 }
    );
    assert_eq!(
        staleness_of_default(&evidence, &stale_claim),
        StalenessAssessment::Stale { age_seconds: 7200 }
    );
}

#[test]
fn unparseable_timestamp_is_indeterminate_never_silently_fresh() {
    let evidence = evidence_at(EvidenceKind::ExitCode, "not-a-timestamp");
    let claim = claim_at("2026-01-01T00:30:00Z");
    assert!(matches!(
        staleness_of_default(&evidence, &claim),
        StalenessAssessment::Indeterminate { .. }
    ));
    let evidence = evidence_at(EvidenceKind::ExitCode, "2026-01-01T00:30:00Z");
    assert_eq!(
        staleness_of_default(&evidence, &claim_at("yesterday")),
        StalenessAssessment::Indeterminate { reason: "claim.claimed_at is not valid RFC3339" }
    );
}

#[test]
fn evidence_observed_after_the_claim_is_indeterminate_not_fresh() {
    let evidence = evidence_at(EvidenceKind::ExitCode, "2026-01-01T01:00:00Z");
    let claim = claim_at("2026-01-01T00:00:00Z");
    assert!(matches!(
        staleness_of_default(&evidence, &claim),
        StalenessAssessment::Indeterminate { .. }
    ));
}

#[test]
fn evidence_observed_less_than_a_second_after_the_claim_is_indeterminate_too() {
    let evidence = evidence_at(EvidenceKind::ExitCode, "2026-01-01T00:00:00.500Z");
    let claim = claim_at("2026-01-01T00:00:00.250Z");
    assert_eq!(
        staleness_of_default(&evidence, &claim),
        StalenessAssessment::Indeterminate {
            reason: "evidence.observed_at is after claim.claimed_at"
        }
    );
}

#[test]
fn offsets_are_taken_into_account_and_the_window_is_inclusive() {
    let evidence = evidence_at(EvidenceKind::ExitCode, "2026-01-01T02:00:00+02:00");
    assert_eq!(
        staleness_of_default(&evidence, &claim_at("2026-01-01T01:00:00Z")),
        StalenessAssessment::Fresh { age_seconds: DEFAULT_EXIT_CODE_FRESHNESS_SECONDS }
    );
    assert_eq!(
        staleness_of(
            &evidence,
            &claim_at("2026-01-01T00:00:11Z"),
            FreshnessWindow::Perishable { max_age_seconds: 10 }
        ),
        StalenessAssessment::Stale { age_seconds: 11 }
    );
}

#[test]
fn only_exit_codes_perish_by_default() {
    assert_eq!(
        EvidenceKind::ExitCode.default_freshness_window(),
        FreshnessWindow::Perishable { max_age_seconds: 3600 }
    );
    for kind in [
        EvidenceKind::ToolResult,
        EvidenceKind::FileDiff,
        EvidenceKind::ProcessObservation,
        EvidenceKind::TranscriptExcerpt,
    ] {
        assert_eq!(kind.default_freshness_window(), FreshnessWindow::Durable);
    }
}

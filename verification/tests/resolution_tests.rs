use core_qualification::core_qualification_dto::{
    EvaluationResult, QualificationResult, QualificationResultType,
};
use core_qualification::ep_dto::{Experiment, Traffic, Variant};
use core_qualification::resolution::{
    unit_claims, CollisionDecider, MergeDecider, ValueDecider, REASON_OUTRANKED,
};
use core_qualification::survey::survey_catalog;

const ALL: &str = "11111111111111111111111111111111111111111111111111111111111111111111111111111111111111111111111111111111";

fn experiment(id: i32, flags: i32, layer: &str, variant_ids: &[i32]) -> Experiment {
    Experiment {
        name: format!("Experiment {}", id),
        context_expression: String::new(),
        hashing_constant: layer.to_string(),
        experiment_id: id,
        experiment_flags: flags,
        variant_rules: vec![],
        variants: variant_ids
            .iter()
            .map(|v| Variant {
                name: format!("Variant {}", v),
                value: format!("value-{}", v),
                variant_id: *v,
                variant_display_id: format!("d{}", v),
                variant_flags: 0,
                variant_mod: Traffic { spectrum: ALL.to_string() },
                whitelisted_uids: vec![],
            })
            .collect(),
        base_mod: Traffic { spectrum: ALL.to_string() },
        randomization_unit_key: "UID".to_string(),
    }
}

fn verdicts(entries: &[(i32, QualificationResultType, &str)]) -> EvaluationResult {
    let mut r = EvaluationResult::new();
    for (id, kind, reason) in entries {
        r.record(*id, QualificationResult::new(*kind, reason));
    }
    r
}

fn outcome(r: &EvaluationResult, id: i32) -> (QualificationResultType, String) {
    let q = r.get(id).unwrap();
    (q.qualification_result_type, q.qualification_result_reason.clone())
}

fn resolve(
    experiments: &Vec<Experiment>,
    candidates: &EvaluationResult,
    hashed: &EvaluationResult,
    opted: Option<&EvaluationResult>,
) -> EvaluationResult {
    let decider = CollisionDecider {
        experiments,
        claims: unit_claims(experiments, Some(hashed)),
        candidates: Some(candidates),
        hashed: Some(hashed),
        opted,
        on_list: None,
    };
    survey_catalog(&decider, experiments)
}

use QualificationResultType::{Deferred, Error, NotQualified, Qualified};

#[test]
fn merge_prefers_the_mappers_in_their_rank() {
    let experiments = vec![experiment(1, 0, "L", &[10, 11, 12, 13, 14])];
    let opted = verdicts(&[(10, Qualified, "opt")]);
    let on_list = verdicts(&[(10, Qualified, "list"), (11, Qualified, "list")]);
    let hashed = verdicts(&[(10, Error, "hash"), (11, Error, "hash"), (12, NotQualified, "hash")]);
    let ruled = verdicts(&[
        (10, Deferred, "rule"),
        (11, Deferred, "rule"),
        (12, Deferred, "rule"),
        (13, Deferred, "rule"),
    ]);
    let decider = MergeDecider {
        opted: Some(&opted),
        on_list: Some(&on_list),
        hashed: Some(&hashed),
        ruled: Some(&ruled),
    };
    let r = survey_catalog(&decider, &experiments);
    assert_eq!(r.len(), 4);
    assert_eq!(outcome(&r, 10), (Qualified, "opt".to_string()));
    assert_eq!(outcome(&r, 11), (Qualified, "list".to_string()));
    assert_eq!(outcome(&r, 12), (NotQualified, "hash".to_string()));
    assert_eq!(outcome(&r, 13), (Deferred, "rule".to_string()));
    assert_eq!(r.kind_of(14), None);
}

#[test]
fn merge_without_snapshots_is_empty() {
    let experiments = vec![experiment(1, 0, "L", &[10])];
    let decider = MergeDecider { opted: None, on_list: None, hashed: None, ruled: None };
    assert_eq!(survey_catalog(&decider, &experiments).len(), 0);
}

#[test]
fn merge_covers_the_catalog_only() {
    let experiments = vec![experiment(1, 0, "L", &[10])];
    let hashed = verdicts(&[(10, Qualified, "hash"), (99, Qualified, "stray")]);
    let decider = MergeDecider { opted: None, on_list: None, hashed: Some(&hashed), ruled: None };
    let r = survey_catalog(&decider, &experiments);
    assert_eq!(r.len(), 1);
    assert_eq!(r.kind_of(99), None);
}

#[test]
fn unit_claims_marks_the_experiments_that_hashing_qualified() {
    let experiments = vec![
        experiment(1, 0, "L", &[10, 11]),
        experiment(2, 0, "L", &[20]),
        experiment(3, 0, "L", &[]),
    ];
    let hashed = verdicts(&[(10, NotQualified, "h"), (11, Qualified, "h"), (20, Deferred, "h")]);
    assert_eq!(unit_claims(&experiments, Some(&hashed)), vec![true, false, false]);
    assert_eq!(unit_claims(&experiments, None), vec![false, false, false]);
    assert_eq!(unit_claims(&Vec::new(), Some(&hashed)), Vec::<bool>::new());
}

#[test]
fn the_higher_flags_keep_the_unit() {
    let experiments = vec![experiment(1, 1, "L", &[10]), experiment(2, 5, "L", &[20])];
    let hashed = verdicts(&[(10, Qualified, "h"), (20, Qualified, "h")]);
    let r = resolve(&experiments, &hashed, &hashed, None);
    assert_eq!(outcome(&r, 10), (NotQualified, REASON_OUTRANKED.to_string()));
    assert_eq!(outcome(&r, 20), (Qualified, "h".to_string()));
}

#[test]
fn among_equal_flags_the_lower_id_keeps_the_unit() {
    let experiments = vec![experiment(7, 3, "L", &[10]), experiment(4, 3, "L", &[20])];
    let hashed = verdicts(&[(10, Qualified, "h"), (20, Qualified, "h")]);
    let r = resolve(&experiments, &hashed, &hashed, None);
    assert_eq!(
        outcome(&r, 10),
        (NotQualified, "another experiment of the layer has the unit".to_string())
    );
    assert_eq!(outcome(&r, 20), (Qualified, "h".to_string()));
}

#[test]
fn experiments_of_different_layers_do_not_collide() {
    let experiments = vec![experiment(1, 1, "L", &[10]), experiment(2, 5, "M", &[20])];
    let hashed = verdicts(&[(10, Qualified, "h"), (20, Qualified, "h")]);
    let r = resolve(&experiments, &hashed, &hashed, None);
    assert_eq!(outcome(&r, 10), (Qualified, "h".to_string()));
    assert_eq!(outcome(&r, 20), (Qualified, "h".to_string()));
}

#[test]
fn an_experiment_that_did_not_qualify_the_unit_takes_nothing() {
    let experiments = vec![experiment(1, 1, "L", &[10]), experiment(2, 5, "L", &[20])];
    let hashed = verdicts(&[(10, Qualified, "h"), (20, NotQualified, "h")]);
    let r = resolve(&experiments, &hashed, &hashed, None);
    assert_eq!(outcome(&r, 10), (Qualified, "h".to_string()));
    assert_eq!(outcome(&r, 20), (NotQualified, "h".to_string()));
}

#[test]
fn one_experiment_of_three_keeps_the_unit() {
    let experiments = vec![
        experiment(3, 2, "L", &[30]),
        experiment(1, 2, "L", &[10]),
        experiment(2, 1, "L", &[20]),
    ];
    let hashed = verdicts(&[(10, Qualified, "h"), (20, Qualified, "h"), (30, Qualified, "h")]);
    let r = resolve(&experiments, &hashed, &hashed, None);
    assert_eq!(r.kind_of(10), Some(Qualified));
    assert_eq!(r.kind_of(20), Some(NotQualified));
    assert_eq!(r.kind_of(30), Some(NotQualified));
}

#[test]
fn a_forced_variant_is_never_turned_down() {
    let experiments = vec![experiment(1, 1, "L", &[10]), experiment(2, 5, "L", &[20])];
    let opted = verdicts(&[(10, Qualified, "opt")]);
    let hashed = verdicts(&[(20, Qualified, "h")]);
    let candidates = verdicts(&[(10, Qualified, "opt"), (20, Qualified, "h")]);
    let r = resolve(&experiments, &candidates, &hashed, Some(&opted));
    assert_eq!(outcome(&r, 10), (Qualified, "opt".to_string()));
    assert_eq!(outcome(&r, 20), (Qualified, "h".to_string()));
}

#[test]
fn only_qualified_candidates_are_turned_down() {
    let experiments = vec![experiment(1, 1, "L", &[10, 11, 12]), experiment(2, 5, "L", &[20])];
    let hashed = verdicts(&[
        (10, Qualified, "h"),
        (11, NotQualified, "h"),
        (12, Error, "h"),
        (20, Qualified, "h"),
    ]);
    let r = resolve(&experiments, &hashed, &hashed, None);
    assert_eq!(outcome(&r, 10), (NotQualified, REASON_OUTRANKED.to_string()));
    assert_eq!(outcome(&r, 11), (NotQualified, "h".to_string()));
    assert_eq!(outcome(&r, 12), (Error, "h".to_string()));
    assert_eq!(outcome(&r, 20), (Qualified, "h".to_string()));
}

#[test]
fn values_of_the_qualified_variants() {
    let experiments = vec![experiment(1, 0, "L", &[10, 11, 12])];
    let decided = verdicts(&[(10, Qualified, "h"), (11, NotQualified, "h")]);
    let r = survey_catalog(&ValueDecider { decided: Some(&decided) }, &experiments);
    assert_eq!(r.len(), 1);
    assert_eq!(outcome(&r, 10), (Qualified, "value-10".to_string()));
    assert_eq!(survey_catalog(&ValueDecider { decided: None }, &experiments).len(), 0);
}

#[test]
fn experiments_with_different_randomization_keys_share_no_layer() {
    let mut other = experiment(2, 5, "L", &[20]);
    other.randomization_unit_key = "SESSION".to_string();
    let experiments = vec![experiment(1, 1, "L", &[10]), other];
    let hashed = verdicts(&[(10, Qualified, "h"), (20, Qualified, "h")]);
    let r = resolve(&experiments, &hashed, &hashed, None);
    assert_eq!(outcome(&r, 10), (Qualified, "h".to_string()));
    assert_eq!(outcome(&r, 20), (Qualified, "h".to_string()));
}

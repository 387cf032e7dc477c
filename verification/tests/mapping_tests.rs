use core_qualification::core_qualification_dto::{
    EvaluationResult, QualificationResult, QualificationResultType,
};
use core_qualification::ep_dto::{Experiment, Target, Traffic, Variant, VariantRule};
use core_qualification::mapping::{
    choose_rule, count_ids, OptInDecider, RuleChoice, UidListDecider, VariantDecider, VariantRuleDecider,
    REASON_AMBIGUOUS, REASON_BASE_SPECTRUM, REASON_BUCKET_OWNER, REASON_HELD_BACK, REASON_LISTED,
    REASON_MALFORMED_GATE, REASON_MALFORMED_RULE, REASON_NOT_ELIGIBLE, REASON_NO_UNIT,
    REASON_OPTED_IN, REASON_OTHER_BUCKET, REASON_RULE_OVERRIDE, REASON_SHARED_ID,
    REASON_SIBLING_FORCED,
};
use core_qualification::string_map::StringMap;
use core_qualification::survey::survey_catalog;
use std::collections::HashMap;

const FIRST_HALF: &str = "1111111111111111111111111111111111111111111111111100000000000000000000000000000000000000000000000000";
const SECOND_HALF: &str = "0000000000000000000000000000000000000000000000000011111111111111111111111111111111111111111111111111";
const ALL: &str = "1111111111111111111111111111111111111111111111111111111111111111111111111111111111111111111111111111";

fn traffic(s: &str) -> Traffic {
    Traffic { spectrum: s.to_string() }
}

fn variant(id: i32, display: &str, spectrum: &str, uids: &[&str]) -> Variant {
    Variant {
        name: format!("Variant {}", id),
        value: format!("value-{}", id),
        variant_id: id,
        variant_display_id: display.to_string(),
        variant_flags: 0,
        variant_mod: traffic(spectrum),
        whitelisted_uids: uids.iter().map(|u| u.to_string()).collect(),
    }
}

// Red owns the first half and blue the second; the rule swaps them for
// SITEID 0 on CHANNELID 1.
fn color_experiment() -> Experiment {
    let mut swapped = HashMap::new();
    swapped.insert(1024, traffic(SECOND_HALF));
    swapped.insert(1025, traffic(FIRST_HALF));
    Experiment {
        name: "Color Experiment".to_string(),
        context_expression: "AND(IN(SITEID, 0, 77), IN(CHANNELID, 1, 5, 6), EQ(F90D, \"TRUE\"))"
            .to_string(),
        hashing_constant: "0XF23AC".to_string(),
        experiment_id: 65536,
        experiment_flags: 0,
        variant_rules: vec![VariantRule {
            rule_id: 0,
            context_expression: "AND(IN(SITEID, 0), IN(CHANNELID, 1))".to_string(),
            target: Target { variant_mod_map: swapped },
        }],
        variants: vec![
            variant(1024, "0aX0", FIRST_HALF, &["1038812"]),
            variant(1025, "0aX1", SECOND_HALF, &["1015529"]),
        ],
        base_mod: traffic(ALL),
        randomization_unit_key: "LOOKUP_ID".to_string(),
    }
}

fn attrs(pairs: &[(&str, &str)]) -> StringMap<String> {
    let mut m = StringMap::new();
    for (k, v) in pairs {
        m.insert(k.to_string(), v.to_string());
    }
    m
}

// The unit search_88ax9i5 falls into bucket 57 of the color experiment.
fn eligible(site: &str, channel: &str) -> StringMap<String> {
    attrs(&[
        ("LOOKUP_ID", "search_88ax9i5"),
        ("UID", "7"),
        ("SITEID", site),
        ("CHANNELID", channel),
        ("F90D", "TRUE"),
    ])
}

fn outcome(r: &EvaluationResult, id: i32) -> (QualificationResultType, String) {
    let q = r.get(id).unwrap();
    (q.qualification_result_type, q.qualification_result_reason.clone())
}

fn hashed(experiments: &Vec<Experiment>, attrs: &StringMap<String>) -> EvaluationResult {
    survey_catalog(
        &VariantDecider {
            experiments,
            counts: count_ids(experiments),
            attrs,
            opted: None,
            on_list: None,
        },
        experiments,
    )
}

#[test]
fn opt_in_qualifies_the_named_variant_only() {
    let experiments = vec![color_experiment()];
    let opt_ins = vec!["0aX0".to_string()];
    let r = survey_catalog(&OptInDecider { opt_ins: &opt_ins }, &experiments);
    assert_eq!(r.len(), 1);
    assert_eq!(
        outcome(&r, 1024),
        (QualificationResultType::Qualified, REASON_OPTED_IN.to_string())
    );
    assert_eq!(r.kind_of(1025), None);
}

#[test]
fn opt_in_of_nothing_qualifies_nothing() {
    let experiments = vec![color_experiment()];
    let r = survey_catalog(&OptInDecider { opt_ins: &Vec::new() }, &experiments);
    assert_eq!(r.len(), 0);
    let unknown = vec!["0aX9".to_string()];
    assert_eq!(survey_catalog(&OptInDecider { opt_ins: &unknown }, &experiments).len(), 0);
}

#[test]
fn list_qualifies_by_the_randomization_unit() {
    let experiments = vec![color_experiment()];
    let a = attrs(&[("LOOKUP_ID", "1038812")]);
    let r = survey_catalog(&UidListDecider { attrs: &a }, &experiments);
    assert_eq!(r.len(), 1);
    assert_eq!(
        outcome(&r, 1024),
        (QualificationResultType::Qualified, REASON_LISTED.to_string())
    );
}

#[test]
fn list_qualifies_by_the_uid_attribute() {
    let experiments = vec![color_experiment()];
    let a = attrs(&[("LOOKUP_ID", "search_88ax9i5"), ("UID", "1015529")]);
    let r = survey_catalog(&UidListDecider { attrs: &a }, &experiments);
    assert_eq!(r.len(), 1);
    assert_eq!(r.kind_of(1025), Some(QualificationResultType::Qualified));
    assert_eq!(r.kind_of(1024), None);
}

#[test]
fn list_leaves_an_unlisted_unit_alone() {
    let experiments = vec![color_experiment()];
    let a = attrs(&[("LOOKUP_ID", "search_88ax9i5"), ("UID", "7"), ("OTHER", "1015529")]);
    assert_eq!(survey_catalog(&UidListDecider { attrs: &a }, &experiments).len(), 0);
    assert_eq!(survey_catalog(&UidListDecider { attrs: &attrs(&[]) }, &experiments).len(), 0);
}

#[test]
fn choose_rule_takes_the_first_rule_that_holds() {
    let mut e = color_experiment();
    assert_eq!(choose_rule(&e, &eligible("0", "1")), RuleChoice::Rule(0));
    assert_eq!(choose_rule(&e, &eligible("77", "1")), RuleChoice::Base);
    e.variant_rules.push(VariantRule {
        rule_id: 1,
        context_expression: "IN(SITEID, 0, 77)".to_string(),
        target: Target { variant_mod_map: HashMap::new() },
    });
    assert_eq!(choose_rule(&e, &eligible("0", "1")), RuleChoice::Rule(0));
    assert_eq!(choose_rule(&e, &eligible("77", "1")), RuleChoice::Rule(1));
    assert_eq!(choose_rule(&e, &eligible("5", "1")), RuleChoice::Base);
}

#[test]
fn choose_rule_stops_at_a_malformed_rule() {
    let mut e = color_experiment();
    e.variant_rules.insert(
        0,
        VariantRule {
            rule_id: 9,
            context_expression: "IN(SITEID".to_string(),
            target: Target { variant_mod_map: HashMap::new() },
        },
    );
    assert_eq!(choose_rule(&e, &eligible("0", "1")), RuleChoice::Malformed);
    // A rule that holds before the malformed one is taken.
    e.variant_rules.swap(0, 1);
    assert_eq!(choose_rule(&e, &eligible("0", "1")), RuleChoice::Rule(0));
    assert_eq!(choose_rule(&e, &eligible("77", "1")), RuleChoice::Malformed);
}

#[test]
fn choose_rule_without_rules_is_base() {
    let mut e = color_experiment();
    e.variant_rules.clear();
    assert_eq!(choose_rule(&e, &eligible("0", "1")), RuleChoice::Base);
}

#[test]
fn rule_mapper_defers_every_variant() {
    let experiments = vec![color_experiment()];
    let a = eligible("0", "1");
    let r = survey_catalog(&VariantRuleDecider { attrs: &a }, &experiments);
    assert_eq!(
        outcome(&r, 1024),
        (QualificationResultType::Deferred, REASON_RULE_OVERRIDE.to_string())
    );
    assert_eq!(
        outcome(&r, 1025),
        (QualificationResultType::Deferred, REASON_RULE_OVERRIDE.to_string())
    );
    let b = eligible("77", "1");
    let r = survey_catalog(&VariantRuleDecider { attrs: &b }, &experiments);
    assert_eq!(
        outcome(&r, 1024),
        (QualificationResultType::Deferred, REASON_BASE_SPECTRUM.to_string())
    );
    assert_eq!(
        outcome(&r, 1025),
        (QualificationResultType::Deferred, REASON_BASE_SPECTRUM.to_string())
    );
}

#[test]
fn rule_mapper_keeps_the_own_spectrum_of_an_unlisted_variant() {
    let mut e = color_experiment();
    e.variant_rules[0].target.variant_mod_map.remove(&1025);
    let a = eligible("0", "1");
    let r = survey_catalog(&VariantRuleDecider { attrs: &a }, &vec![e]);
    assert_eq!(
        outcome(&r, 1024),
        (QualificationResultType::Deferred, REASON_RULE_OVERRIDE.to_string())
    );
    assert_eq!(
        outcome(&r, 1025),
        (QualificationResultType::Deferred, REASON_BASE_SPECTRUM.to_string())
    );
}

#[test]
fn rule_mapper_reports_a_malformed_rule() {
    let mut e = color_experiment();
    e.variant_rules[0].context_expression = "AND(IN(SITEID, 0), IN(CHANNELID, 1)".to_string();
    let a = eligible("0", "1");
    let r = survey_catalog(&VariantRuleDecider { attrs: &a }, &vec![e]);
    assert_eq!(
        outcome(&r, 1024),
        (QualificationResultType::Error, REASON_MALFORMED_RULE.to_string())
    );
    assert_eq!(
        outcome(&r, 1025),
        (QualificationResultType::Error, "a rule's expression is malformed".to_string())
    );
}

#[test]
fn hashing_qualifies_the_owner_of_the_bucket() {
    // Bucket 57 lies in the second half: blue owns it.
    let r = hashed(&vec![color_experiment()], &eligible("77", "6"));
    assert_eq!(r.len(), 2);
    assert_eq!(
        outcome(&r, 1025),
        (QualificationResultType::Qualified, REASON_BUCKET_OWNER.to_string())
    );
    assert_eq!(
        outcome(&r, 1024),
        (QualificationResultType::NotQualified, REASON_OTHER_BUCKET.to_string())
    );
}

#[test]
fn hashing_follows_the_rule_that_holds() {
    // The rule gives the second half to red.
    let r = hashed(&vec![color_experiment()], &eligible("0", "1"));
    assert_eq!(
        outcome(&r, 1024),
        (QualificationResultType::Qualified, REASON_BUCKET_OWNER.to_string())
    );
    assert_eq!(
        outcome(&r, 1025),
        (QualificationResultType::NotQualified, REASON_OTHER_BUCKET.to_string())
    );
}

#[test]
fn hashing_uses_the_bucket_of_the_unit() {
    // unit348 falls into bucket 49, unit46 into bucket 50.
    let mut a = eligible("77", "6");
    a.insert("LOOKUP_ID".to_string(), "unit348".to_string());
    let r = hashed(&vec![color_experiment()], &a);
    assert_eq!(r.kind_of(1024), Some(QualificationResultType::Qualified));
    assert_eq!(r.kind_of(1025), Some(QualificationResultType::NotQualified));
    a.insert("LOOKUP_ID".to_string(), "unit46".to_string());
    let r = hashed(&vec![color_experiment()], &a);
    assert_eq!(r.kind_of(1024), Some(QualificationResultType::NotQualified));
    assert_eq!(r.kind_of(1025), Some(QualificationResultType::Qualified));
}

#[test]
fn hashing_qualifies_nobody_beyond_the_spectra() {
    // unit26 falls into bucket 100, which no spectrum of 100 symbols reaches.
    let mut a = eligible("77", "6");
    a.insert("LOOKUP_ID".to_string(), "unit26".to_string());
    let r = hashed(&vec![color_experiment()], &a);
    assert_eq!(
        outcome(&r, 1024),
        (QualificationResultType::Deferred, REASON_HELD_BACK.to_string())
    );
    assert_eq!(
        outcome(&r, 1025),
        (QualificationResultType::Deferred, REASON_HELD_BACK.to_string())
    );
}

#[test]
fn hashing_defers_a_unit_outside_the_base_spectrum() {
    let mut e = color_experiment();
    e.base_mod = traffic(FIRST_HALF);
    let r = hashed(&vec![e], &eligible("77", "6"));
    assert_eq!(
        outcome(&r, 1024),
        (QualificationResultType::Deferred, REASON_HELD_BACK.to_string())
    );
    assert_eq!(
        outcome(&r, 1025),
        (QualificationResultType::Deferred, "the unit's bucket is not yet in the experiment".to_string())
    );
}

#[test]
fn a_rule_reaches_beyond_the_base_spectrum() {
    let mut e = color_experiment();
    e.base_mod = traffic(FIRST_HALF);
    let r = hashed(&vec![e], &eligible("0", "1"));
    assert_eq!(r.kind_of(1024), Some(QualificationResultType::Qualified));
    assert_eq!(r.kind_of(1025), Some(QualificationResultType::NotQualified));
}

#[test]
fn hashing_reports_a_bucket_with_two_owners() {
    let mut e = color_experiment();
    e.variants[0].variant_mod = traffic(ALL);
    e.variants.push(variant(1026, "0aX2", FIRST_HALF, &[]));
    let r = hashed(&vec![e], &eligible("77", "6"));
    assert_eq!(
        outcome(&r, 1024),
        (QualificationResultType::Error, REASON_AMBIGUOUS.to_string())
    );
    assert_eq!(
        outcome(&r, 1025),
        (QualificationResultType::Error, "several variants own the unit's bucket".to_string())
    );
    assert_eq!(
        outcome(&r, 1026),
        (QualificationResultType::NotQualified, REASON_OTHER_BUCKET.to_string())
    );
}

#[test]
fn hashing_skips_an_experiment_whose_expression_fails() {
    let r = hashed(&vec![color_experiment()], &eligible("100", "6"));
    assert_eq!(
        outcome(&r, 1024),
        (QualificationResultType::NotQualified, REASON_NOT_ELIGIBLE.to_string())
    );
    assert_eq!(
        outcome(&r, 1025),
        (QualificationResultType::NotQualified, REASON_NOT_ELIGIBLE.to_string())
    );
}

#[test]
fn hashing_reports_a_malformed_expression() {
    let mut e = color_experiment();
    e.context_expression = "AND(IN(SITEID, 0, 77)".to_string();
    let r = hashed(&vec![e], &eligible("77", "6"));
    assert_eq!(
        outcome(&r, 1024),
        (QualificationResultType::Error, REASON_MALFORMED_GATE.to_string())
    );
    assert_eq!(
        outcome(&r, 1025),
        (QualificationResultType::Error, REASON_MALFORMED_GATE.to_string())
    );
}

#[test]
fn hashing_reports_a_malformed_rule() {
    let mut e = color_experiment();
    e.variant_rules[0].context_expression = "XOR(A, B)".to_string();
    let r = hashed(&vec![e], &eligible("77", "6"));
    assert_eq!(
        outcome(&r, 1024),
        (QualificationResultType::Error, REASON_MALFORMED_RULE.to_string())
    );
}

#[test]
fn hashing_reports_a_missing_unit() {
    let a = attrs(&[("SITEID", "77"), ("CHANNELID", "6"), ("F90D", "TRUE")]);
    let r = hashed(&vec![color_experiment()], &a);
    assert_eq!(
        outcome(&r, 1024),
        (QualificationResultType::Error, REASON_NO_UNIT.to_string())
    );
    assert_eq!(
        outcome(&r, 1025),
        (QualificationResultType::Error, "the randomization unit is missing".to_string())
    );
}

#[test]
fn hashing_leaves_a_forced_variant_alone_and_turns_its_siblings_down() {
    let experiments = vec![color_experiment()];
    let a = eligible("77", "6");
    let mut opted = EvaluationResult::new();
    opted.record(1024, QualificationResult::new(QualificationResultType::Qualified, "x"));
    let r = survey_catalog(
        &VariantDecider {
            experiments: &experiments,
            counts: count_ids(&experiments),
            attrs: &a,
            opted: Some(&opted),
            on_list: None,
        },
        &experiments,
    );
    assert_eq!(r.len(), 1);
    assert_eq!(r.kind_of(1024), None);
    assert_eq!(
        outcome(&r, 1025),
        (QualificationResultType::NotQualified, REASON_SIBLING_FORCED.to_string())
    );
    let r = survey_catalog(
        &VariantDecider {
            experiments: &experiments,
            counts: count_ids(&experiments),
            attrs: &a,
            opted: None,
            on_list: Some(&opted),
        },
        &experiments,
    );
    assert_eq!(r.len(), 1);
    assert_eq!(
        outcome(&r, 1025),
        (QualificationResultType::NotQualified, "the unit is assigned to another variant".to_string())
    );
}

#[test]
fn hashing_never_qualifies_two_variants_of_one_experiment() {
    let mut e = color_experiment();
    e.variants.push(variant(1026, "0aX2", SECOND_HALF, &[]));
    e.variants.push(variant(1027, "0aX3", ALL, &[]));
    let experiments = vec![e];
    let mut n = 0;
    while n < 200 {
        let mut a = eligible("77", "6");
        a.insert("LOOKUP_ID".to_string(), format!("unit{}", n));
        let r = hashed(&experiments, &a);
        let mut qualified = 0;
        for id in [1024, 1025, 1026, 1027] {
            if r.kind_of(id) == Some(QualificationResultType::Qualified) {
                qualified += 1;
            }
        }
        assert!(qualified <= 1);
        n += 1;
    }
}

#[test]
fn a_later_variant_with_the_same_id_replaces_the_verdict() {
    let mut e = color_experiment();
    e.variants.push(variant(1024, "0aX0-bis", SECOND_HALF, &[]));
    let opt_ins = vec!["0aX0-bis".to_string()];
    let r = survey_catalog(&OptInDecider { opt_ins: &opt_ins }, &vec![e]);
    assert_eq!(r.len(), 1);
    assert_eq!(r.kind_of(1024), Some(QualificationResultType::Qualified));
}

#[test]
fn survey_of_an_empty_catalog_is_empty() {
    let a = eligible("77", "6");
    assert_eq!(hashed(&Vec::new(), &a).len(), 0);
}

#[test]
fn count_ids_counts_up_to_two() {
    let mut e = color_experiment();
    e.variants.push(variant(1024, "0aX0-bis", SECOND_HALF, &[]));
    e.variants.push(variant(1024, "0aX0-ter", SECOND_HALF, &[]));
    let mut other = color_experiment();
    other.variants.truncate(1);
    other.variants[0].variant_id = 7;
    let counts = count_ids(&vec![e, other]);
    assert_eq!(counts.len(), 3);
    assert_eq!(counts.get(&1024), Some(&2));
    assert_eq!(counts.get(&1025), Some(&1));
    assert_eq!(counts.get(&7), Some(&1));
    assert_eq!(counts.get(&8), None);
    assert_eq!(count_ids(&Vec::new()).len(), 0);
}

#[test]
fn hashing_reports_an_id_that_occurs_twice() {
    let mut e = color_experiment();
    e.variants.push(variant(1025, "0aX1-bis", FIRST_HALF, &[]));
    let r = hashed(&vec![e], &eligible("77", "6"));
    assert_eq!(
        outcome(&r, 1025),
        (QualificationResultType::Error, REASON_SHARED_ID.to_string())
    );
    assert_eq!(
        outcome(&r, 1025).1,
        "the variant's id occurs more than once in the catalog"
    );
    assert_eq!(r.kind_of(1024), Some(QualificationResultType::NotQualified));
}

#[test]
fn hashing_reports_an_id_that_two_experiments_share() {
    let mut other = color_experiment();
    other.experiment_id = 9;
    other.variants.truncate(1);
    let r = hashed(&vec![color_experiment(), other], &eligible("77", "6"));
    assert_eq!(
        outcome(&r, 1024),
        (QualificationResultType::Error, REASON_SHARED_ID.to_string())
    );
    assert_eq!(r.kind_of(1025), Some(QualificationResultType::Qualified));
}

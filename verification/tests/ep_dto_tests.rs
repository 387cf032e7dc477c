use core_qualification::ep_dto::{
    Experiment, Target, Traffic, Variant, VariantRule, BASE_HASHING_CONSTANT, SPECTRUM_WIDTH,
};
use std::collections::HashMap;

#[test]
fn constant_value() {
    assert_eq!(BASE_HASHING_CONSTANT, "EXPT");
}

#[test]
fn spectrum_width_value() {
    assert_eq!(SPECTRUM_WIDTH, 104);
}

// Experiment Creation Unit Test
#[test]
fn experiment_creation() {
    let color_red_variant = Variant {
        name: "Red Variant".to_string(),
        value: "#FF0000".to_string(),
        variant_id: 1024,
        variant_display_id: "0aX0".to_string(),
        variant_flags: 0,
        variant_mod: Traffic { spectrum: "1111111111111111111111111111111111111111111111111100000000000000000000000000000000000000000000000000".to_string() },
        whitelisted_uids: vec!["1038812".to_string()]
    };
    let color_blue_variant = Variant {
        name: "Blue Variant".to_string(),
        value: "#00FF00".to_string(),
        variant_id: 1025,
        variant_display_id: "0aX1".to_string(),
        variant_flags: 0,
        variant_mod: Traffic { spectrum: "0000000000000000000000000000000000000000000000000011111111111111111111111111111111111111111111111111".to_string() },
        whitelisted_uids: vec!["1015529".to_string()]
    };
    let mut first_variant_mod_map = HashMap::new();
    first_variant_mod_map.insert(1024, Traffic { spectrum: "0000000000000000000000000000000000000000000000000011111111111111111111111111111111111111111111111111".to_string() });
    first_variant_mod_map.insert(1025, Traffic { spectrum: "1111111111111111111111111111111111111111111111111100000000000000000000000000000000000000000000000000".to_string() });
    let first_variant_rule = VariantRule {
        rule_id: 0,
        context_expression: "AND(IN(SITEID, 0), IN(CHANNELID, 1))".to_string(),
        target: Target {
            variant_mod_map: first_variant_mod_map,
        },
    };
    let color_experiment = Experiment {
        name: "Color Experiment".to_string(),
        context_expression: "AND(IN(SITEID, 0, 77), IN(CHANNELID, 1, 5, 6), EQ(F90D, \"TRUE\"))".to_string(),
        hashing_constant: "0XF23AC".to_string(),
        experiment_id: 65536,
        experiment_flags: 0,
        variant_rules: vec![first_variant_rule],
        variants: vec![color_red_variant, color_blue_variant],
        base_mod: Traffic { spectrum: "1111111111111111111111111111111111111111111111111111111111111111111111111111111111111111111111111111".to_string() },
        randomization_unit_key: "LOOKUP_ID".to_string(),
    };
    assert_eq!(color_experiment.name, "Color Experiment");
    assert_eq!(color_experiment.variants.len(), 2);
    assert_eq!(color_experiment.variant_rules.len(), 1);
    assert_eq!(color_experiment, color_experiment);
}

#[test]
fn traffic_owns_the_buckets_marked_one() {
    let half = Traffic { spectrum: "1100".to_string() };
    assert!(half.owns(0));
    assert!(half.owns(1));
    assert!(!half.owns(2));
    assert!(!half.owns(3));
}

#[test]
fn traffic_owns_nothing_beyond_its_end() {
    let short = Traffic { spectrum: "11".to_string() };
    assert!(!short.owns(2));
    assert!(!short.owns(103));
    let empty = Traffic { spectrum: String::new() };
    assert!(!empty.owns(0));
}

#[test]
fn target_gives_the_listed_spectrum() {
    let mut variant_mod_map = HashMap::new();
    variant_mod_map.insert(7, Traffic { spectrum: "10".to_string() });
    let target = Target { variant_mod_map };
    assert_eq!(target.spectrum_for(7), Some(&Traffic { spectrum: "10".to_string() }));
    assert_eq!(target.spectrum_for(8), None);
}

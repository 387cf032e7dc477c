use core_qualification::core_qualification_dto::{EvaluationContext, QualificationResultType};
use core_qualification::core_qualification_lib::{
    CollisionResolvePhase, ContextPhase, InitializationPhase, MapperKind, MappingPhase,
    OptInMapper, Phase, PhaseKind, PrioritizationPhase, QualificationEngine,
    ResultPackagedPhase, UidListMapper, ValidationPhase, VariantMapper, VariantRuleMapper,
};
use core_qualification::ep_dto::{Experiment, Target, Traffic, Variant, VariantRule};
use core_qualification::string_map::StringMap;
use std::collections::HashMap;

// Qualification Engine Unit Test
#[test]
fn qualification_engine_creation() {
    let engine = QualificationEngine::default();
    assert_eq!(engine.phases.len(), 7);
}

#[test]
fn qualification_engine_qualify_happy_path() {
    let color_red_variant = Variant {
        name: "Red Variant".to_string(),
        value: "#FF0000".to_string(),
        variant_id: 1024,
        variant_display_id: "0aX0".to_string(),
        variant_flags: 0,
        variant_mod: Traffic { spectrum: "1111111111111111111111111111111111111111111111111100000000000000000000000000000000000000000000000000".to_string() },
        whitelisted_uids: vec!["1038812".to_string()]
    };
    let color_blue_variant = Variant {
        name: "Blue Variant".to_string(),
        value: "#00FF00".to_string(),
        variant_id: 1025,
        variant_display_id: "0aX1".to_string(),
        variant_flags: 0,
        variant_mod: Traffic { spectrum: "0000000000000000000000000000000000000000000000000011111111111111111111111111111111111111111111111111".to_string() },
        whitelisted_uids: vec!["1015529".to_string()]
    };
    let mut first_variant_mod_map = HashMap::new();
    first_variant_mod_map.insert(1024, Traffic { spectrum: "0000000000000000000000000000000000000000000000000011111111111111111111111111111111111111111111111111".to_string() });
    first_variant_mod_map.insert(1025, Traffic { spectrum: "1111111111111111111111111111111111111111111111111100000000000000000000000000000000000000000000000000".to_string() });
    let first_variant_rule = VariantRule {
        rule_id: 0,
        context_expression: "AND(IN(SITEID, 0), IN(CHANNELID, 1))".to_string(),
        target: Target {
            variant_mod_map: first_variant_mod_map,
        },
    };
    let color_experiment = Experiment {
        name: "Color Experiment".to_string(),
        context_expression: "AND(IN(SITEID, 0, 77), IN(CHANNELID, 1, 5, 6), EQ(F90D, \"TRUE\"))".to_string(),
        hashing_constant: "0XF23AC".to_string(),
        experiment_id: 65536,
        experiment_flags: 0,
        variant_rules: vec![first_variant_rule],
        variants: vec![color_red_variant, color_blue_variant],
        base_mod: Traffic { spectrum: "1111111111111111111111111111111111111111111111111111111111111111111111111111111111111111111111111111".to_string() },
        randomization_unit_key: "LOOKUP_ID".to_string(),
    };
    let mut context_map: StringMap<String> = StringMap::new();
    context_map.insert("LOOKUP_ID".to_string(), "search_88ax9i5".to_string());
    context_map.insert("UID".to_string(), "1015529".to_string());
    context_map.insert("SITEID".to_string(), "100".to_string());
    context_map.insert("CHANNELID".to_string(), "6".to_string());
    context_map.insert("F90D".to_string(), "TRUE".to_string());
    let mut evaluation_context = EvaluationContext {
        experiment_list: vec![color_experiment],
        context_map,
        opt_in_variant_display_ids: vec!["0aX0".to_string()],
        ..Default::default()
    };
    let engine = QualificationEngine::default();

    engine.qualify(&mut evaluation_context);
    assert_eq!(evaluation_context.experiment_list.len(), 1);
    // The caller opted into 0aX0, and the caller's UID is on the list of 0aX1.
    assert_eq!(evaluation_context.result.variant_result_map.len(), 2);
    assert_eq!(evaluation_context.result_by_phase.len(), 4);
    assert_eq!(evaluation_context.error_code, 0);
    assert_eq!(evaluation_context.error_message, "");
    assert_eq!(
        evaluation_context.result.kind_of(1024),
        Some(QualificationResultType::Qualified)
    );
    assert_eq!(
        evaluation_context.result.kind_of(1025),
        Some(QualificationResultType::Qualified)
    );
    assert_eq!(evaluation_context.result_by_mapper.len(), 4);
}

#[test]
fn qualification_engine_qualify_missing_randomization_unit_context() {
    let color_red_variant = Variant {
        name: "Red Variant".to_string(),
        value: "#FF0000".to_string(),
        variant_id: 1024,
        variant_display_id: "0aX0".to_string(),
        variant_flags: 0,
        variant_mod: Traffic { spectrum: "1111111111111111111111111111111111111111111111111100000000000000000000000000000000000000000000000000".to_string() },
        whitelisted_uids: vec!["1038812".to_string()]
    };
    let color_blue_variant = Variant {
        name: "Blue Variant".to_string(),
        value: "#00FF00".to_string(),
        variant_id: 1025,
        variant_display_id: "0aX1".to_string(),
        variant_flags: 0,
        variant_mod: Traffic { spectrum: "0000000000000000000000000000000000000000000000000011111111111111111111111111111111111111111111111111".to_string() },
        whitelisted_uids: vec!["1015529".to_string()]
    };
    let mut first_variant_mod_map = HashMap::new();
    first_variant_mod_map.insert(1024, Traffic { spectrum: "0000000000000000000000000000000000000000000000000011111111111111111111111111111111111111111111111111".to_string() });
    first_variant_mod_map.insert(1025, Traffic { spectrum: "1111111111111111111111111111111111111111111111111100000000000000000000000000000000000000000000000000".to_string() });
    let first_variant_rule = VariantRule {
        rule_id: 0,
        context_expression: "AND(IN(SITEID, 0), IN(CHANNELID, 1))".to_string(),
        target: Target {
            variant_mod_map: first_variant_mod_map,
        },
    };
    let color_experiment = Experiment {
        name: "Color Experiment".to_string(),
        context_expression: "AND(IN(SITEID, 0, 77), IN(CHANNELID, 1, 5, 6), EQ(F90D, \"TRUE\"))".to_string(),
        hashing_constant: "0XF23AC".to_string(),
        experiment_id: 65536,
        experiment_flags: 0,
        variant_rules: vec![first_variant_rule],
        variants: vec![color_red_variant, color_blue_variant],
        base_mod: Traffic { spectrum: "1111111111111111111111111111111111111111111111111111111111111111111111111111111111111111111111111111".to_string() },
        randomization_unit_key: "LOOKUP_ID".to_string(),
    };
    let mut context_map: StringMap<String> = StringMap::new();
    context_map.insert("UID".to_string(), "1015529".to_string());
    context_map.insert("SITEID".to_string(), "100".to_string());
    context_map.insert("CHANNELID".to_string(), "6".to_string());
    context_map.insert("F90D".to_string(), "TRUE".to_string());
    let mut evaluation_context = EvaluationContext {
        experiment_list: vec![color_experiment],
        context_map,
        opt_in_variant_display_ids: vec!["0aX0".to_string()],
        ..Default::default()
    };
    let engine = QualificationEngine::default();

    engine.qualify(&mut evaluation_context);
    assert_eq!(evaluation_context.experiment_list.len(), 1);
    assert_eq!(evaluation_context.result.variant_result_map.len(), 0);
    assert_eq!(evaluation_context.result_by_phase.len(), 0);
    assert_eq!(evaluation_context.error_code, 1);
    assert_eq!(
        evaluation_context.error_message,
        "Missing context key LOOKUP_ID"
    );
}

#[test]
fn default_engine_has_the_phases_in_order() {
    let engine = QualificationEngine::default();
    assert_eq!(
        engine.phases,
        vec![
            PhaseKind::Initialization(InitializationPhase),
            PhaseKind::Validation(ValidationPhase),
            PhaseKind::Mapping(MappingPhase {
                mappers: vec![
                    MapperKind::OptIn(OptInMapper),
                    MapperKind::UidList(UidListMapper),
                    MapperKind::VariantRule(VariantRuleMapper),
                    MapperKind::Variant(VariantMapper),
                ],
            }),
            PhaseKind::CollisionResolve(CollisionResolvePhase),
            PhaseKind::Prioritization(PrioritizationPhase),
            PhaseKind::Context(ContextPhase),
            PhaseKind::ResultPackaged(ResultPackagedPhase),
        ]
    );
    assert_eq!(engine, QualificationEngine::default());
}

#[test]
fn validation_keeps_an_error_that_is_set() {
    let mut context = EvaluationContext {
        error_code: 7,
        error_message: "earlier".to_string(),
        ..Default::default()
    };
    ValidationPhase.execute(&mut context);
    assert_eq!(context.error_code, 7);
    assert_eq!(context.error_message, "earlier");
}

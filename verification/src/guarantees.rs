//! What holds of every evaluation by the default engine.

use vstd::prelude::*;
use crate::core_qualification_dto::{
    ContextView,
    EvaluationContext,
    QualificationResultType,
    Verdict,
};
use crate::core_qualification_lib::{
    candidates_of,
    default_mappers,
    default_phases,
    enriched,
    first_missing,
    mapper_effect,
    mapper_verdicts,
    opt_in_mapped,
    outcome,
    packaged,
    phase_effect,
    phase_verdicts,
    phase_views,
    prioritized,
    resolved,
    run_mappers,
    uid_list_mapped,
    validated,
    variant_mapped,
    variant_rule_mapped,
    MapperKind,
    OptInMapper,
    PhaseView,
    QualificationEngine,
    UidListMapper,
    VariantMapper,
    VariantRuleMapper,
    COLLISION_RESOLVE_PHASE,
    CONTEXT_PHASE,
    PRIORITIZATION_PHASE,
    RESULT_PACKAGE_PHASE,
};
use crate::ep_dto::{ExperimentView, VariantRuleView, VariantView};
use crate::expression::evaluation;
use crate::mapping::{
    bucket_verdict,
    claims,
    contested,
    count_in,
    count_to,
    hashed_verdict,
    is_forced,
    listed,
    opt_in_rule,
    select_rule,
    shared_id,
    uid_list_rule,
    variant_rule,
    variant_rule_rule,
    RuleChoice,
    OPT_IN_MAPPER,
    REASON_SHARED_ID,
    UID_LIST_MAPPER,
    VARIANT_MAPPER,
    VARIANT_RULE_MAPPER,
};
use crate::resolution::{
    claims_unit,
    merge_rule,
    outranked,
    outranks,
    preferred,
    qualified_in,
    resolve_rule,
    rival,
    same_layer,
    value_rule,
    REASON_OUTRANKED,
};
use crate::survey::{decided_at, lemma_survey_keys, lemma_survey_source, survey};

verus! {

/// The four mappers keep their snapshots under four different names.
pub proof fn lemma_mapper_names_differ()
    ensures
        OPT_IN_MAPPER@ != UID_LIST_MAPPER@,
        OPT_IN_MAPPER@ != VARIANT_RULE_MAPPER@,
        OPT_IN_MAPPER@ != VARIANT_MAPPER@,
        UID_LIST_MAPPER@ != VARIANT_RULE_MAPPER@,
        UID_LIST_MAPPER@ != VARIANT_MAPPER@,
        VARIANT_RULE_MAPPER@ != VARIANT_MAPPER@,
{
    reveal_strlit("OptInMapper");
    reveal_strlit("UidListMapper");
    reveal_strlit("VariantRuleMapper");
    reveal_strlit("VariantMapper");
    assert(OPT_IN_MAPPER@.len() == 11);
    assert(UID_LIST_MAPPER@.len() == 13);
    assert(VARIANT_RULE_MAPPER@.len() == 17);
    assert(VARIANT_MAPPER@.len() == 13);
    assert(UID_LIST_MAPPER@[0] == 'U');
    assert(VARIANT_MAPPER@[0] == 'V');
}

/// The phases keep their snapshots under different names.
pub proof fn lemma_phase_names_differ()
    ensures
        COLLISION_RESOLVE_PHASE@ != PRIORITIZATION_PHASE@,
        COLLISION_RESOLVE_PHASE@ != CONTEXT_PHASE@,
        COLLISION_RESOLVE_PHASE@ != RESULT_PACKAGE_PHASE@,
        PRIORITIZATION_PHASE@ != CONTEXT_PHASE@,
        PRIORITIZATION_PHASE@ != RESULT_PACKAGE_PHASE@,
        CONTEXT_PHASE@ != RESULT_PACKAGE_PHASE@,
{
    reveal_strlit("CollisionResolvePhase");
    reveal_strlit("PrioritizationPhase");
    reveal_strlit("ContextPhase");
    reveal_strlit("ResultPackagePhase");
    assert(COLLISION_RESOLVE_PHASE@.len() == 21);
    assert(PRIORITIZATION_PHASE@.len() == 19);
    assert(CONTEXT_PHASE@.len() == 12);
    assert(RESULT_PACKAGE_PHASE@.len() == 18);
}

/// What the opt-in mapper finds for the inputs of `c`.
pub open spec fn opted(c: ContextView) -> Map<i32, Verdict> {
    survey(c.experiment_list, opt_in_rule(c.opt_in_variant_display_ids))
}

/// What the list mapper finds for the inputs of `c`.
pub open spec fn on_list(c: ContextView) -> Map<i32, Verdict> {
    survey(c.experiment_list, uid_list_rule(c.context_map))
}

/// What the rule mapper finds for the inputs of `c`.
pub open spec fn ruled(c: ContextView) -> Map<i32, Verdict> {
    survey(c.experiment_list, variant_rule_rule(c.context_map))
}

/// What the variant mapper finds for the inputs of `c`, after the two
/// forcing mappers.
pub open spec fn hashed(c: ContextView) -> Map<i32, Verdict> {
    survey(
        c.experiment_list,
        variant_rule(c.experiment_list, c.context_map, opted(c), on_list(c)),
    )
}

/// The candidates for the inputs of `c`.
pub open spec fn candidates(c: ContextView) -> Map<i32, Verdict> {
    survey(c.experiment_list, merge_rule(opted(c), on_list(c), hashed(c), ruled(c)))
}

/// The final verdicts for the inputs of `c`: the candidates that collision
/// resolution leaves. They are a function of the catalog, the attributes and
/// the opt-ins.
pub open spec fn final_verdicts(c: ContextView) -> Map<i32, Verdict> {
    survey(
        c.experiment_list,
        resolve_rule(c.experiment_list, candidates(c), hashed(c), opted(c), on_list(c)),
    )
}

/// The values of the variants that end qualified.
pub open spec fn qualified_values(c: ContextView) -> Map<i32, Verdict> {
    survey(c.experiment_list, value_rule(final_verdicts(c)))
}

/// Whether the engine can go past validation on `c`: no error is set, and
/// the attributes hold the randomization key of every experiment.
pub open spec fn passes_validation(c: ContextView) -> bool {
    c.error_code <= 0 && first_missing(c.experiment_list, c.context_map, 0) is None
}

/// The snapshots by mapper that the default engine leaves.
pub open spec fn mapper_snapshots_after(c: ContextView) -> Map<Seq<char>, Map<i32, Verdict>> {
    c.result_by_mapper.insert(OPT_IN_MAPPER@, opted(c)).insert(UID_LIST_MAPPER@, on_list(c)).insert(
        VARIANT_RULE_MAPPER@,
        ruled(c),
    ).insert(VARIANT_MAPPER@, hashed(c))
}

/// The snapshots by phase that the default engine leaves.
pub open spec fn phase_snapshots_after(c: ContextView) -> Map<Seq<char>, Map<i32, Verdict>> {
    c.result_by_phase.insert(COLLISION_RESOLVE_PHASE@, final_verdicts(c)).insert(
        PRIORITIZATION_PHASE@,
        final_verdicts(c),
    ).insert(
        CONTEXT_PHASE@,
        qualified_values(c),
    ).insert(RESULT_PACKAGE_PHASE@, final_verdicts(c))
}

proof fn lemma_outcome_push(phases: Seq<PhaseView>, phase: PhaseView, c: ContextView)
    ensures
        outcome(phases.push(phase), c) == (if phases.len() > 0 && outcome(phases, c).error_code
            > 0 {
            outcome(phases, c)
        } else {
            phase_effect(phase, outcome(phases, c))
        }),
{
    assert(phases.push(phase).drop_last() =~= phases);
}

proof fn lemma_run_mappers_push(mappers: Seq<MapperKind>, mapper: MapperKind, c: ContextView)
    ensures
        run_mappers(mappers.push(mapper), c) == mapper_effect(mapper, run_mappers(mappers, c)),
{
    assert(mappers.push(mapper).drop_last() =~= mappers);
}

/// The context after the default mapper chain.
proof fn lemma_default_mappers(c: ContextView)
    ensures
        run_mappers(default_mappers(), c) == (ContextView {
            result_by_mapper: mapper_snapshots_after(c),
            ..c
        }),
{
    lemma_mapper_names_differ();
    let none = Seq::<MapperKind>::empty();
    let one = none.push(MapperKind::OptIn(OptInMapper));
    let two = one.push(MapperKind::UidList(UidListMapper));
    let three = two.push(MapperKind::VariantRule(VariantRuleMapper));
    let four = three.push(MapperKind::Variant(VariantMapper));
    assert(four =~= default_mappers());
    lemma_run_mappers_push(none, MapperKind::OptIn(OptInMapper), c);
    lemma_run_mappers_push(one, MapperKind::UidList(UidListMapper), c);
    lemma_run_mappers_push(two, MapperKind::VariantRule(VariantRuleMapper), c);
    lemma_run_mappers_push(three, MapperKind::Variant(VariantMapper), c);
    let c1 = opt_in_mapped(c);
    let c2 = uid_list_mapped(c1);
    let c3 = variant_rule_mapped(c2);
    let c4 = variant_mapped(c3);
    assert(run_mappers(none, c) == c);
    assert(run_mappers(one, c) == c1);
    assert(run_mappers(two, c) == c2);
    assert(run_mappers(three, c) == c3);
    assert(run_mappers(four, c) == c4);
    assert(mapper_verdicts(c3, OPT_IN_MAPPER) == opted(c));
    assert(mapper_verdicts(c3, UID_LIST_MAPPER) == on_list(c));
}

/// A mapping phase does what its mappers do, one after the other, and no
/// more: without a mapper it leaves the context as it was, and with one
/// mapper more it does what that mapper does to what the others left.
pub proof fn lemma_mapping_is_its_mappers(
    mappers: Seq<MapperKind>,
    mapper: MapperKind,
    c: ContextView,
)
    ensures
        phase_effect(PhaseView::Mapping(Seq::empty()), c) == c,
        phase_effect(PhaseView::Mapping(mappers.push(mapper)), c) == mapper_effect(
            mapper,
            phase_effect(PhaseView::Mapping(mappers), c),
        ),
{
    lemma_run_mappers_push(mappers, mapper, c);
}

/// The default engine, on a context that passes validation, leaves the
/// final verdicts as the result and the snapshots of its mappers and phases;
/// it leaves the inputs and the error as they were.
pub proof fn lemma_default_engine_completes(c: ContextView)
    requires
        passes_validation(c),
    ensures
        outcome(default_phases(), c) == (ContextView {
            result: final_verdicts(c),
            result_by_mapper: mapper_snapshots_after(c),
            result_by_phase: phase_snapshots_after(c),
            ..c
        }),
{
    lemma_mapper_names_differ();
    lemma_phase_names_differ();
    lemma_default_mappers(c);
    let none = Seq::<PhaseView>::empty();
    let to_initialization = none.push(PhaseView::Initialization);
    let to_validation = to_initialization.push(PhaseView::Validation);
    let to_mapping = to_validation.push(PhaseView::Mapping(default_mappers()));
    let to_collision = to_mapping.push(PhaseView::CollisionResolve);
    let to_prioritization = to_collision.push(PhaseView::Prioritization);
    let to_context = to_prioritization.push(PhaseView::Context);
    let to_packaging = to_context.push(PhaseView::ResultPackaged);
    assert(to_packaging =~= default_phases());
    lemma_outcome_push(none, PhaseView::Initialization, c);
    lemma_outcome_push(to_initialization, PhaseView::Validation, c);
    lemma_outcome_push(to_validation, PhaseView::Mapping(default_mappers()), c);
    lemma_outcome_push(to_mapping, PhaseView::CollisionResolve, c);
    lemma_outcome_push(to_collision, PhaseView::Prioritization, c);
    lemma_outcome_push(to_prioritization, PhaseView::Context, c);
    lemma_outcome_push(to_context, PhaseView::ResultPackaged, c);
    assert(outcome(none, c) == c);
    assert(outcome(to_initialization, c) == c);
    assert(validated(c) == c);
    assert(outcome(to_validation, c) == c);
    // The mappers leave their four snapshots.
    let mapped = run_mappers(default_mappers(), c);
    assert(outcome(to_mapping, c) == mapped);
    assert(mapper_verdicts(mapped, OPT_IN_MAPPER) == opted(c));
    assert(mapper_verdicts(mapped, UID_LIST_MAPPER) == on_list(c));
    assert(mapper_verdicts(mapped, VARIANT_RULE_MAPPER) == ruled(c));
    assert(mapper_verdicts(mapped, VARIANT_MAPPER) == hashed(c));
    // Collision resolution merges them and settles the candidates.
    assert(candidates_of(mapped) == candidates(c));
    let settled = resolved(mapped);
    assert(outcome(to_collision, c) == settled);
    assert(phase_verdicts(settled, COLLISION_RESOLVE_PHASE) == final_verdicts(c));
    // The later phases hand the verdicts on.
    let ranked = prioritized(settled);
    assert(outcome(to_prioritization, c) == ranked);
    assert(phase_verdicts(ranked, PRIORITIZATION_PHASE) == final_verdicts(c));
    let valued = enriched(ranked);
    assert(outcome(to_context, c) == valued);
    assert(phase_verdicts(valued, PRIORITIZATION_PHASE) == final_verdicts(c));
    assert(outcome(to_packaging, c) == packaged(valued));
}

/// Where the attributes lack the randomization key of some experiment and no
/// error is set, the default engine stops with the error code 1 and the
/// message that names the key of the first such experiment; it leaves the
/// result and the snapshots as they were.
pub proof fn lemma_missing_key_aborts(c: ContextView, k: int)
    requires
        c.error_code <= 0,
        0 <= k < c.experiment_list.len(),
        !c.context_map.contains_key(c.experiment_list[k].randomization_unit_key),
    ensures
        first_missing(c.experiment_list, c.context_map, 0) matches Some(first) && 0 <= first <= k
            && !c.context_map.contains_key(c.experiment_list[first].randomization_unit_key)
            && outcome(default_phases(), c) == (ContextView {
            error_code: 1,
            error_message: "Missing context key "@
                + c.experiment_list[first].randomization_unit_key,
            ..c
        }),
{
    lemma_first_missing(c.experiment_list, c.context_map, 0, k);
    let none = Seq::<PhaseView>::empty();
    let to_initialization = none.push(PhaseView::Initialization);
    let to_validation = to_initialization.push(PhaseView::Validation);
    lemma_outcome_push(none, PhaseView::Initialization, c);
    lemma_outcome_push(to_initialization, PhaseView::Validation, c);
    assert(outcome(none, c) == c);
    assert(outcome(to_initialization, c) == c);
    assert(outcome(to_validation, c) == validated(c));
    assert(default_phases().take(2) =~= to_validation);
    crate::core_qualification_lib::lemma_outcome_stops(default_phases(), c, 2);
}

proof fn lemma_first_missing(
    experiments: Seq<ExperimentView>,
    attrs: Map<Seq<char>, Seq<char>>,
    from: int,
    k: int,
)
    requires
        0 <= from <= k < experiments.len(),
        !attrs.contains_key(experiments[k].randomization_unit_key),
    ensures
        first_missing(experiments, attrs, from) matches Some(first) && from <= first <= k
            && !attrs.contains_key(experiments[first].randomization_unit_key),
    decreases k - from,
{
    if attrs.contains_key(experiments[from].randomization_unit_key) {
        lemma_first_missing(experiments, attrs, from + 1, k);
    }
}

/// Two evaluations of contexts with the same contents, each by an engine of
/// its own that holds the default phases, end in contexts with the same
/// contents: the same result, verdict for verdict, and the same error.
pub proof fn lemma_evaluation_is_repeatable(
    first_engine: QualificationEngine,
    first: EvaluationContext,
    second_engine: QualificationEngine,
    second: EvaluationContext,
)
    requires
        phase_views(first_engine.phases@) == default_phases(),
        phase_views(second_engine.phases@) == default_phases(),
        first@ == second@,
    ensures
        outcome(phase_views(first_engine.phases@), first@) == outcome(
            phase_views(second_engine.phases@),
            second@,
        ),
{
}

/// The result of the default engine depends on the catalog, the attributes
/// and the opt-ins alone: not on what the context held as result or as
/// snapshots before.
pub proof fn lemma_result_depends_on_inputs(a: ContextView, b: ContextView)
    requires
        passes_validation(a),
        b.error_code <= 0,
        a.experiment_list == b.experiment_list,
        a.context_map == b.context_map,
        a.opt_in_variant_display_ids == b.opt_in_variant_display_ids,
    ensures
        outcome(default_phases(), a).result == outcome(default_phases(), b).result,
{
    lemma_default_engine_completes(a);
    lemma_default_engine_completes(b);
}

/// A variant that the caller opted into, or whose list holds the unit, ends
/// qualified in the result of the default engine, whatever bucket the unit
/// falls into.
pub proof fn lemma_forced_variant_is_qualified(c: ContextView, k: int, i: int)
    requires
        passes_validation(c),
        0 <= k < c.experiment_list.len(),
        0 <= i < c.experiment_list[k].variants.len(),
        c.opt_in_variant_display_ids.contains(
            c.experiment_list[k].variants[i].variant_display_id,
        ) || listed(c.experiment_list[k], i, c.context_map),
    ensures
        qualified_in(
            outcome(default_phases(), c).result,
            c.experiment_list[k].variants[i].variant_id,
        ),
{
    lemma_default_engine_completes(c);
    let es = c.experiment_list;
    let id = es[k].variants[i].variant_id;
    let opt_rule = opt_in_rule(c.opt_in_variant_display_ids);
    let list_rule = uid_list_rule(c.context_map);
    // One of the two forcing mappers gives the id a verdict, and each verdict
    // they give is `Qualified`.
    if c.opt_in_variant_display_ids.contains(es[k].variants[i].variant_display_id) {
        assert(decided_at(es, opt_rule, k, i, id, opt_rule(es[k], i)->0));
        lemma_survey_keys(es, opt_rule, id);
    } else {
        assert(decided_at(es, list_rule, k, i, id, list_rule(es[k], i)->0));
        lemma_survey_keys(es, list_rule, id);
    }
    if opted(c).contains_key(id) {
        lemma_survey_source(es, opt_rule, id);
    }
    if on_list(c).contains_key(id) {
        lemma_survey_source(es, list_rule, id);
    }
    assert(is_forced(id, opted(c), on_list(c)));
    let chosen = preferred(id, opted(c), on_list(c), hashed(c), ruled(c));
    assert(chosen is Some && chosen->0.kind == QualificationResultType::Qualified);
    // The candidate for the id is that verdict.
    let merge = merge_rule(opted(c), on_list(c), hashed(c), ruled(c));
    assert(decided_at(es, merge, k, i, id, merge(es[k], i)->0));
    lemma_survey_keys(es, merge, id);
    lemma_survey_source(es, merge, id);
    assert(candidates(c)[id] == chosen->0);
    // Collision resolution leaves a forced variant as it is.
    let resolve = resolve_rule(es, candidates(c), hashed(c), opted(c), on_list(c));
    assert(decided_at(es, resolve, k, i, id, resolve(es[k], i)->0));
    lemma_survey_keys(es, resolve, id);
    lemma_survey_source(es, resolve, id);
}

/// The result of the default engine holds a verdict for every variant of
/// the catalog, qualified or not, and for no other variant id.
pub proof fn lemma_result_covers_the_catalog(c: ContextView, id: i32)
    requires
        passes_validation(c),
    ensures
        outcome(default_phases(), c).result.contains_key(id) <==> exists|k: int, i: int|
            0 <= k < c.experiment_list.len() && 0 <= i < c.experiment_list[k].variants.len()
                && #[trigger] c.experiment_list[k].variants[i].variant_id == id,
{
    lemma_default_engine_completes(c);
    let es = c.experiment_list;
    let rule_rule = variant_rule_rule(c.context_map);
    let merge = merge_rule(opted(c), on_list(c), hashed(c), ruled(c));
    let resolve = resolve_rule(es, candidates(c), hashed(c), opted(c), on_list(c));
    lemma_survey_keys(es, resolve, id);
    if exists|k: int, i: int|
        0 <= k < es.len() && 0 <= i < es[k].variants.len()
            && #[trigger] es[k].variants[i].variant_id == id {
        let (k, i) = choose|k: int, i: int|
            0 <= k < es.len() && 0 <= i < es[k].variants.len()
                && #[trigger] es[k].variants[i].variant_id == id;
        // The rule mapper leaves no variant out, so the id is a candidate.
        assert(decided_at(es, rule_rule, k, i, id, rule_rule(es[k], i)->0));
        lemma_survey_keys(es, rule_rule, id);
        assert(decided_at(es, merge, k, i, id, merge(es[k], i)->0));
        lemma_survey_keys(es, merge, id);
        // Collision resolution gives every candidate a verdict.
        assert(decided_at(es, resolve, k, i, id, resolve(es[k], i)->0));
    }
    if final_verdicts(c).contains_key(id) {
        let (k, i) = choose|k: int, i: int| #[trigger]
            decided_at(es, resolve, k, i, id, resolve(es[k], i)->0);
        assert(es[k].variants[i].variant_id == id);
    }
}

proof fn lemma_count_in_grows(variants: Seq<VariantView>, id: i32, i: int, n: int)
    requires
        0 <= i < n <= variants.len(),
        variants[i].variant_id == id,
    ensures
        count_in(variants, id, n) >= count_in(variants, id, i) + 1,
    decreases n,
{
    if i < n - 1 {
        lemma_count_in_grows(variants, id, i, n - 1);
    }
}

proof fn lemma_count_to_grows(experiments: Seq<ExperimentView>, id: i32, k: int, n: int)
    requires
        0 <= k < n <= experiments.len(),
    ensures
        count_to(experiments, id, n) >= count_to(experiments, id, k) + count_in(
            experiments[k].variants,
            id,
            experiments[k].variants.len() as int,
        ),
    decreases n,
{
    if k < n - 1 {
        lemma_count_to_grows(experiments, id, k, n - 1);
    }
}

/// An id that two variants at different places of the catalog have is a
/// shared id.
pub proof fn lemma_two_places_share_an_id(
    experiments: Seq<ExperimentView>,
    k: int,
    i: int,
    l: int,
    j: int,
)
    requires
        0 <= k < experiments.len(),
        0 <= i < experiments[k].variants.len(),
        0 <= l < experiments.len(),
        0 <= j < experiments[l].variants.len(),
        k != l || i != j,
        experiments[k].variants[i].variant_id == experiments[l].variants[j].variant_id,
    ensures
        shared_id(experiments, experiments[k].variants[i].variant_id),
{
    let id = experiments[k].variants[i].variant_id;
    let n = experiments.len() as int;
    if k == l {
        let variants = experiments[k].variants;
        let (first, second) = if i < j {
            (i, j)
        } else {
            (j, i)
        };
        lemma_count_in_grows(variants, id, second, variants.len() as int);
        lemma_count_in_grows(variants, id, first, second);
        lemma_count_to_grows(experiments, id, k, n);
    } else {
        let (first, at_first, second, at_second) = if k < l {
            (k, i, l, j)
        } else {
            (l, j, k, i)
        };
        lemma_count_in_grows(
            experiments[first].variants,
            id,
            at_first,
            experiments[first].variants.len() as int,
        );
        lemma_count_in_grows(
            experiments[second].variants,
            id,
            at_second,
            experiments[second].variants.len() as int,
        );
        lemma_count_to_grows(experiments, id, first, second);
        lemma_count_to_grows(experiments, id, second, n);
    }
}

/// A variant id that more than one variant of the catalog has, and that
/// neither forcing mapper gave a verdict, ends in error in the result of the
/// default engine: no verdict of one variant silently stands for another.
pub proof fn lemma_shared_id_is_an_error(c: ContextView, k: int, i: int)
    requires
        passes_validation(c),
        0 <= k < c.experiment_list.len(),
        0 <= i < c.experiment_list[k].variants.len(),
        shared_id(c.experiment_list, c.experiment_list[k].variants[i].variant_id),
        !is_forced(c.experiment_list[k].variants[i].variant_id, opted(c), on_list(c)),
    ensures
        ({
            let id = c.experiment_list[k].variants[i].variant_id;
            let result = outcome(default_phases(), c).result;
            result.contains_key(id) && result[id] == (Verdict {
                kind: QualificationResultType::Error,
                reason: REASON_SHARED_ID@,
            })
        }),
{
    lemma_default_engine_completes(c);
    let es = c.experiment_list;
    let id = es[k].variants[i].variant_id;
    // The variant mapper gives the error to every variant with the id.
    let hash = variant_rule(es, c.context_map, opted(c), on_list(c));
    assert(decided_at(es, hash, k, i, id, hash(es[k], i)->0));
    lemma_survey_keys(es, hash, id);
    lemma_survey_source(es, hash, id);
    // No mapper ranks above it for this id, so the error is the candidate.
    let merge = merge_rule(opted(c), on_list(c), hashed(c), ruled(c));
    assert(decided_at(es, merge, k, i, id, merge(es[k], i)->0));
    lemma_survey_keys(es, merge, id);
    lemma_survey_source(es, merge, id);
    // Collision resolution turns down qualified candidates only.
    let resolve = resolve_rule(es, candidates(c), hashed(c), opted(c), on_list(c));
    assert(decided_at(es, resolve, k, i, id, resolve(es[k], i)->0));
    lemma_survey_keys(es, resolve, id);
    lemma_survey_source(es, resolve, id);
}

/// Hashing qualifies at most one variant of an experiment: of two variants
/// at different places, not both are qualified.
pub proof fn lemma_one_variant_per_unit(
    e: ExperimentView,
    attrs: Map<Seq<char>, Seq<char>>,
    i: int,
    j: int,
)
    requires
        0 <= i < e.variants.len(),
        0 <= j < e.variants.len(),
        i != j,
    ensures
        !(hashed_verdict(e, attrs, i).kind == QualificationResultType::Qualified && hashed_verdict(
            e,
            attrs,
            j,
        ).kind == QualificationResultType::Qualified),
{
    if hashed_verdict(e, attrs, i).kind == QualificationResultType::Qualified && hashed_verdict(
        e,
        attrs,
        j,
    ).kind == QualificationResultType::Qualified {
        let choice = select_rule(e.variant_rules, attrs, 0);
        let bucket = crate::hasher::bucket_of(
            attrs[e.randomization_unit_key],
            e.hashing_constant,
            e.experiment_id,
        );
        assert(hashed_verdict(e, attrs, i) == bucket_verdict(e, choice, bucket, i));
        assert(hashed_verdict(e, attrs, j) == bucket_verdict(e, choice, bucket, j));
        assert(claims(e, choice, bucket, i) && claims(e, choice, bucket, j));
        if i < j {
            assert(contested(e, choice, bucket));
        } else {
            assert(contested(e, choice, bucket));
        }
    }
}

/// Whether a rule gave `Qualified`.
pub open spec fn qualifies(v: Option<Verdict>) -> bool {
    v matches Some(verdict) && verdict.kind == QualificationResultType::Qualified
}

/// The variant mapper qualifies at most one variant of an experiment.
pub proof fn lemma_variant_mapper_qualifies_one(
    experiments: Seq<ExperimentView>,
    e: ExperimentView,
    attrs: Map<Seq<char>, Seq<char>>,
    opted_ids: Map<i32, Verdict>,
    listed_ids: Map<i32, Verdict>,
    i: int,
    j: int,
)
    requires
        0 <= i < e.variants.len(),
        0 <= j < e.variants.len(),
        i != j,
    ensures
        ({
            let rule = variant_rule(experiments, attrs, opted_ids, listed_ids);
            !(qualifies(rule(e, i)) && qualifies(rule(e, j)))
        }),
{
    lemma_one_variant_per_unit(e, attrs, i, j);
}

/// Collision resolution turns down what hashing gave to an experiment that
/// another experiment of its layer outranks: where hashing qualified a
/// variant of the one at place `j`, which comes before the one at place `k`
/// in their layer, no variant of the latter stays qualified by hashing.
pub proof fn lemma_outranked_experiment_yields(
    experiments: Seq<ExperimentView>,
    candidate_verdicts: Map<i32, Verdict>,
    hashed_verdicts: Map<i32, Verdict>,
    opted_verdicts: Map<i32, Verdict>,
    listed_verdicts: Map<i32, Verdict>,
    j: int,
    k: int,
    i: int,
)
    requires
        0 <= j < experiments.len(),
        0 <= k < experiments.len(),
        0 <= i < experiments[k].variants.len(),
        same_layer(experiments[j], experiments[k]),
        outranks(experiments[j], experiments[k]),
        claims_unit(experiments[j], hashed_verdicts),
        qualified_in(candidate_verdicts, experiments[k].variants[i].variant_id),
        !is_forced(experiments[k].variants[i].variant_id, opted_verdicts, listed_verdicts),
    ensures
        resolve_rule(
            experiments,
            candidate_verdicts,
            hashed_verdicts,
            opted_verdicts,
            listed_verdicts,
        )(experiments[k], i) == Some(
            Verdict { kind: QualificationResultType::NotQualified, reason: REASON_OUTRANKED@ },
        ),
{
    assert(rival(experiments[j], experiments[k], hashed_verdicts));
    assert(outranked(experiments, hashed_verdicts, experiments[k]));
}

/// Collision resolution leaves every candidate of an experiment as it is,
/// where no experiment of the catalog takes the unit from it.
pub proof fn lemma_unrivalled_experiment_keeps(
    experiments: Seq<ExperimentView>,
    candidate_verdicts: Map<i32, Verdict>,
    hashed_verdicts: Map<i32, Verdict>,
    opted_verdicts: Map<i32, Verdict>,
    listed_verdicts: Map<i32, Verdict>,
    k: int,
    i: int,
)
    requires
        0 <= k < experiments.len(),
        0 <= i < experiments[k].variants.len(),
        candidate_verdicts.contains_key(experiments[k].variants[i].variant_id),
        forall|j: int|
            0 <= j < experiments.len() ==> !rival(
                #[trigger] experiments[j],
                experiments[k],
                hashed_verdicts,
            ),
    ensures
        resolve_rule(
            experiments,
            candidate_verdicts,
            hashed_verdicts,
            opted_verdicts,
            listed_verdicts,
        )(experiments[k], i) == Some(candidate_verdicts[experiments[k].variants[i].variant_id]),
{
}

/// Of two experiments, at most one comes before the other.
pub proof fn lemma_rank_is_one_way(a: ExperimentView, b: ExperimentView)
    ensures
        !(outranks(a, b) && outranks(b, a)),
        !outranks(a, a),
{
}

/// The choice among the rules is the first rule whose expression holds: the
/// expressions of the rules before it are well formed and do not hold. No
/// rule is chosen only where no expression holds, and the choice is
/// `Malformed` only where a malformed expression comes before any that holds.
pub proof fn lemma_choice_is_first_rule_that_holds(
    rules: Seq<VariantRuleView>,
    attrs: Map<Seq<char>, Seq<char>>,
    from: int,
)
    requires
        0 <= from,
        rules.len() <= usize::MAX,
    ensures
        match select_rule(rules, attrs, from) {
            RuleChoice::Rule(r) => {
                &&& from <= r < rules.len()
                &&& evaluation(rules[r as int].context_expression, attrs) == Some(true)
                &&& forall|q: int|
                    from <= q < r ==> evaluation(#[trigger] rules[q].context_expression, attrs)
                        == Some(false)
            },
            RuleChoice::Base => forall|q: int|
                from <= q < rules.len() ==> evaluation(
                    #[trigger] rules[q].context_expression,
                    attrs,
                ) == Some(false),
            RuleChoice::Malformed => exists|m: int|
                {
                    &&& from <= m < rules.len()
                    &&& evaluation(#[trigger] rules[m].context_expression, attrs) is None
                    &&& forall|q: int|
                        from <= q < m ==> evaluation(
                            #[trigger] rules[q].context_expression,
                            attrs,
                        ) == Some(false)
                },
        },
    decreases rules.len() - from,
{
    if from < rules.len() {
        match evaluation(rules[from].context_expression, attrs) {
            None => {
                assert(evaluation(rules[from].context_expression, attrs) is None);
            },
            Some(true) => {},
            Some(false) => {
                lemma_choice_is_first_rule_that_holds(rules, attrs, from + 1);
                if select_rule(rules, attrs, from) is Malformed {
                    let m = choose|m: int|
                        {
                            &&& from + 1 <= m < rules.len()
                            &&& evaluation(#[trigger] rules[m].context_expression, attrs) is None
                            &&& forall|q: int|
                                from + 1 <= q < m ==> evaluation(
                                    #[trigger] rules[q].context_expression,
                                    attrs,
                                ) == Some(false)
                        };
                    assert(evaluation(rules[m].context_expression, attrs) is None);
                }
            },
        }
    }
}

} // verus!

//! The two layers of the pipeline: the phases that the engine runs in order,
//! and the mappers that the mapping phase runs in order, all on one context.

use vstd::prelude::*;
use vstd::string::StringExecFns;
use crate::core_qualification_dto::{
    attributes,
    recorded,
    ContextView,
    EvaluationContext,
    EvaluationResult,
    Verdict,
};
use crate::ep_dto::ExperimentView;
use crate::mapping::{
    count_ids,
    opt_in_rule,
    uid_list_rule,
    variant_rule,
    variant_rule_rule,
    OptInDecider,
    UidListDecider,
    VariantDecider,
    VariantRuleDecider,
    OPT_IN_MAPPER,
    UID_LIST_MAPPER,
    VARIANT_MAPPER,
    VARIANT_RULE_MAPPER,
};
use crate::resolution::{
    merge_rule,
    resolve_rule,
    unit_claims,
    value_rule,
    CollisionDecider,
    MergeDecider,
    ValueDecider,
};
use crate::survey::{survey, survey_catalog};

verus! {

// The names under which the phases keep their snapshots.

pub const COLLISION_RESOLVE_PHASE: &'static str = "CollisionResolvePhase";

pub const PRIORITIZATION_PHASE: &'static str = "PrioritizationPhase";

pub const CONTEXT_PHASE: &'static str = "ContextPhase";

pub const RESULT_PACKAGE_PHASE: &'static str = "ResultPackagePhase";

/// The code of the error that validation sets.
pub const MISSING_KEY_CODE: i32 = 1;

/// The start of the message of that error; the missing key follows.
pub const MISSING_KEY_PREFIX: &'static str = "Missing context key ";

/// One stage of the pipeline. The engine calls `before`, `execute` and `after`
/// in this order. A phase reports failure through the context's error code,
/// never otherwise. What each call does to the context is a function of the
/// context alone.
pub trait Phase {
    spec fn prepared(&self, c: ContextView) -> ContextView;

    spec fn executed(&self, c: ContextView) -> ContextView;

    spec fn concluded(&self, c: ContextView) -> ContextView;

    fn before(&self, context: &mut EvaluationContext)
        ensures
            final(context)@ == self.prepared(old(context)@),
    ;

    fn execute(&self, context: &mut EvaluationContext)
        ensures
            final(context)@ == self.executed(old(context)@),
    ;

    fn after(&self, context: &mut EvaluationContext)
        ensures
            final(context)@ == self.concluded(old(context)@),
    ;
}

/// One stage of the mapping phase, which calls `before`, `map` and `after` in
/// this order. What each call does to the context is a function of the
/// context alone.
pub trait Mapper {
    spec fn prepared(&self, c: ContextView) -> ContextView;

    spec fn mapped(&self, c: ContextView) -> ContextView;

    spec fn concluded(&self, c: ContextView) -> ContextView;

    fn before(&self, context: &mut EvaluationContext)
        ensures
            final(context)@ == self.prepared(old(context)@),
    ;

    fn map(&self, context: &mut EvaluationContext)
        ensures
            final(context)@ == self.mapped(old(context)@),
    ;

    fn after(&self, context: &mut EvaluationContext)
        ensures
            final(context)@ == self.concluded(old(context)@),
    ;
}

/// The context with `verdicts` kept as the snapshot of the mapper `name`.
pub open spec fn with_mapper_snapshot(
    c: ContextView,
    name: &str,
    verdicts: Map<i32, Verdict>,
) -> ContextView {
    ContextView { result_by_mapper: c.result_by_mapper.insert(name@, verdicts), ..c }
}

/// The context with `verdicts` kept as the snapshot of the phase `name`.
pub open spec fn with_phase_snapshot(
    c: ContextView,
    name: &str,
    verdicts: Map<i32, Verdict>,
) -> ContextView {
    ContextView { result_by_phase: c.result_by_phase.insert(name@, verdicts), ..c }
}

/// The snapshot of the mapper `name` in `c`.
pub open spec fn mapper_verdicts(c: ContextView, name: &str) -> Map<i32, Verdict> {
    recorded(c.result_by_mapper, name@)
}

/// The snapshot of the phase `name` in `c`.
pub open spec fn phase_verdicts(c: ContextView, name: &str) -> Map<i32, Verdict> {
    recorded(c.result_by_phase, name@)
}

/// The context after the opt-in mapper.
pub open spec fn opt_in_mapped(c: ContextView) -> ContextView {
    with_mapper_snapshot(
        c,
        OPT_IN_MAPPER,
        survey(c.experiment_list, opt_in_rule(c.opt_in_variant_display_ids)),
    )
}

/// The context after the list mapper.
pub open spec fn uid_list_mapped(c: ContextView) -> ContextView {
    with_mapper_snapshot(
        c,
        UID_LIST_MAPPER,
        survey(c.experiment_list, uid_list_rule(c.context_map)),
    )
}

/// The context after the rule mapper.
pub open spec fn variant_rule_mapped(c: ContextView) -> ContextView {
    with_mapper_snapshot(
        c,
        VARIANT_RULE_MAPPER,
        survey(c.experiment_list, variant_rule_rule(c.context_map)),
    )
}

/// The context after the variant mapper, which reads what the two forcing
/// mappers left.
pub open spec fn variant_mapped(c: ContextView) -> ContextView {
    with_mapper_snapshot(
        c,
        VARIANT_MAPPER,
        survey(
            c.experiment_list,
            variant_rule(
                c.experiment_list,
                c.context_map,
                mapper_verdicts(c, OPT_IN_MAPPER),
                mapper_verdicts(c, UID_LIST_MAPPER),
            ),
        ),
    )
}

/// Qualifies every variant that the caller opted into, whatever else holds.
#[derive(Clone, Copy, Debug, PartialEq, Eq, Structural)]
pub struct OptInMapper;

impl Mapper for OptInMapper {
    open spec fn prepared(&self, c: ContextView) -> ContextView {
        c
    }

    open spec fn mapped(&self, c: ContextView) -> ContextView {
        opt_in_mapped(c)
    }

    open spec fn concluded(&self, c: ContextView) -> ContextView {
        c
    }

    fn before(&self, context: &mut EvaluationContext) {
    }

    fn map(&self, context: &mut EvaluationContext) {
        let decider = OptInDecider { opt_ins: &context.opt_in_variant_display_ids };
        let verdicts = survey_catalog(&decider, &context.experiment_list);
        context.keep_mapper_snapshot(OPT_IN_MAPPER, verdicts);
    }

    fn after(&self, context: &mut EvaluationContext) {
    }
}

/// Qualifies every variant whose list holds the unit, whatever its bucket.
#[derive(Clone, Copy, Debug, PartialEq, Eq, Structural)]
pub struct UidListMapper;

impl Mapper for UidListMapper {
    open spec fn prepared(&self, c: ContextView) -> ContextView {
        c
    }

    open spec fn mapped(&self, c: ContextView) -> ContextView {
        uid_list_mapped(c)
    }

    open spec fn concluded(&self, c: ContextView) -> ContextView {
        c
    }

    fn before(&self, context: &mut EvaluationContext) {
    }

    fn map(&self, context: &mut EvaluationContext) {
        let decider = UidListDecider { attrs: &context.context_map };
        let verdicts = survey_catalog(&decider, &context.experiment_list);
        context.keep_mapper_snapshot(UID_LIST_MAPPER, verdicts);
    }

    fn after(&self, context: &mut EvaluationContext) {
    }
}

/// Finds, for every experiment, the first rule whose expression holds.
#[derive(Clone, Copy, Debug, PartialEq, Eq, Structural)]
pub struct VariantRuleMapper;

impl Mapper for VariantRuleMapper {
    open spec fn prepared(&self, c: ContextView) -> ContextView {
        c
    }

    open spec fn mapped(&self, c: ContextView) -> ContextView {
        variant_rule_mapped(c)
    }

    open spec fn concluded(&self, c: ContextView) -> ContextView {
        c
    }

    fn before(&self, context: &mut EvaluationContext) {
    }

    fn map(&self, context: &mut EvaluationContext) {
        let decider = VariantRuleDecider { attrs: &context.context_map };
        let verdicts = survey_catalog(&decider, &context.experiment_list);
        context.keep_mapper_snapshot(VARIANT_RULE_MAPPER, verdicts);
    }

    fn after(&self, context: &mut EvaluationContext) {
    }
}

/// Decides, by eligibility and hashing, every variant of the experiments in
/// which the unit was not forced.
#[derive(Clone, Copy, Debug, PartialEq, Eq, Structural)]
pub struct VariantMapper;

impl Mapper for VariantMapper {
    open spec fn prepared(&self, c: ContextView) -> ContextView {
        c
    }

    open spec fn mapped(&self, c: ContextView) -> ContextView {
        variant_mapped(c)
    }

    open spec fn concluded(&self, c: ContextView) -> ContextView {
        c
    }

    fn before(&self, context: &mut EvaluationContext) {
    }

    fn map(&self, context: &mut EvaluationContext) {
        let decider = VariantDecider {
            experiments: &context.experiment_list,
            counts: count_ids(&context.experiment_list),
            attrs: &context.context_map,
            opted: context.mapper_snapshot(OPT_IN_MAPPER),
            on_list: context.mapper_snapshot(UID_LIST_MAPPER),
        };
        let verdicts = survey_catalog(&decider, &context.experiment_list);
        context.keep_mapper_snapshot(VARIANT_MAPPER, verdicts);
    }

    fn after(&self, context: &mut EvaluationContext) {
    }
}

/// The mappers that a mapping phase can hold.
#[derive(Clone, Copy, Debug, PartialEq, Eq, Structural)]
pub enum MapperKind {
    OptIn(OptInMapper),
    UidList(UidListMapper),
    VariantRule(VariantRuleMapper),
    Variant(VariantMapper),
}

impl Mapper for MapperKind {
    open spec fn prepared(&self, c: ContextView) -> ContextView {
        match *self {
            MapperKind::OptIn(mapper) => mapper.prepared(c),
            MapperKind::UidList(mapper) => mapper.prepared(c),
            MapperKind::VariantRule(mapper) => mapper.prepared(c),
            MapperKind::Variant(mapper) => mapper.prepared(c),
        }
    }

    open spec fn mapped(&self, c: ContextView) -> ContextView {
        match *self {
            MapperKind::OptIn(mapper) => mapper.mapped(c),
            MapperKind::UidList(mapper) => mapper.mapped(c),
            MapperKind::VariantRule(mapper) => mapper.mapped(c),
            MapperKind::Variant(mapper) => mapper.mapped(c),
        }
    }

    open spec fn concluded(&self, c: ContextView) -> ContextView {
        match *self {
            MapperKind::OptIn(mapper) => mapper.concluded(c),
            MapperKind::UidList(mapper) => mapper.concluded(c),
            MapperKind::VariantRule(mapper) => mapper.concluded(c),
            MapperKind::Variant(mapper) => mapper.concluded(c),
        }
    }

    fn before(&self, context: &mut EvaluationContext) {
        match *self {
            MapperKind::OptIn(mapper) => mapper.before(context),
            MapperKind::UidList(mapper) => mapper.before(context),
            MapperKind::VariantRule(mapper) => mapper.before(context),
            MapperKind::Variant(mapper) => mapper.before(context),
        }
    }

    fn map(&self, context: &mut EvaluationContext) {
        match *self {
            MapperKind::OptIn(mapper) => mapper.map(context),
            MapperKind::UidList(mapper) => mapper.map(context),
            MapperKind::VariantRule(mapper) => mapper.map(context),
            MapperKind::Variant(mapper) => mapper.map(context),
        }
    }

    fn after(&self, context: &mut EvaluationContext) {
        match *self {
            MapperKind::OptIn(mapper) => mapper.after(context),
            MapperKind::UidList(mapper) => mapper.after(context),
            MapperKind::VariantRule(mapper) => mapper.after(context),
            MapperKind::Variant(mapper) => mapper.after(context),
        }
    }
}

/// The context after one mapper's three calls.
pub open spec fn mapper_effect(mapper: MapperKind, c: ContextView) -> ContextView {
    mapper.concluded(mapper.mapped(mapper.prepared(c)))
}

/// The context after the mappers, run in order.
pub open spec fn run_mappers(mappers: Seq<MapperKind>, c: ContextView) -> ContextView
    decreases mappers.len(),
{
    if mappers.len() == 0 {
        c
    } else {
        mapper_effect(mappers.last(), run_mappers(mappers.drop_last(), c))
    }
}

/// The place of the first experiment, from `from` on, whose randomization key
/// the attributes lack.
pub open spec fn first_missing(
    experiments: Seq<ExperimentView>,
    attrs: Map<Seq<char>, Seq<char>>,
    from: int,
) -> Option<int>
    decreases experiments.len() - from,
{
    if from < 0 || from >= experiments.len() {
        None
    } else if !attrs.contains_key(experiments[from].randomization_unit_key) {
        Some(from)
    } else {
        first_missing(experiments, attrs, from + 1)
    }
}

/// The context after validation. An error that is already set stays. Else
/// the first experiment whose randomization key is missing sets the error.
pub open spec fn validated(c: ContextView) -> ContextView {
    if c.error_code > 0 {
        c
    } else {
        match first_missing(c.experiment_list, c.context_map, 0) {
            Some(k) => ContextView {
                error_code: MISSING_KEY_CODE,
                error_message: MISSING_KEY_PREFIX@ + c.experiment_list[k].randomization_unit_key,
                ..c
            },
            None => c,
        }
    }
}

/// The candidates that the mappers leave: for every variant of the catalog,
/// the verdict of the mapper that ranks highest among those that kept one.
pub open spec fn candidates_of(c: ContextView) -> Map<i32, Verdict> {
    survey(
        c.experiment_list,
        merge_rule(
            mapper_verdicts(c, OPT_IN_MAPPER),
            mapper_verdicts(c, UID_LIST_MAPPER),
            mapper_verdicts(c, VARIANT_MAPPER),
            mapper_verdicts(c, VARIANT_RULE_MAPPER),
        ),
    )
}

/// The context after collision resolution: the candidates that the mappers
/// leave, the outranked ones turned down, are kept as the phase's snapshot.
pub open spec fn resolved(c: ContextView) -> ContextView {
    with_phase_snapshot(
        c,
        COLLISION_RESOLVE_PHASE,
        survey(
            c.experiment_list,
            resolve_rule(
                c.experiment_list,
                candidates_of(c),
                mapper_verdicts(c, VARIANT_MAPPER),
                mapper_verdicts(c, OPT_IN_MAPPER),
                mapper_verdicts(c, UID_LIST_MAPPER),
            ),
        ),
    )
}

/// The context after prioritization, which hands on what collision
/// resolution left, verdict by verdict.
pub open spec fn prioritized(c: ContextView) -> ContextView {
    with_phase_snapshot(c, PRIORITIZATION_PHASE, phase_verdicts(c, COLLISION_RESOLVE_PHASE))
}

/// The context after the context phase: the values of the qualified
/// variants are kept as the phase's snapshot.
pub open spec fn enriched(c: ContextView) -> ContextView {
    with_phase_snapshot(
        c,
        CONTEXT_PHASE,
        survey(c.experiment_list, value_rule(phase_verdicts(c, PRIORITIZATION_PHASE))),
    )
}

/// The context after result packaging: the final verdicts are the result.
pub open spec fn packaged(c: ContextView) -> ContextView {
    let verdicts = phase_verdicts(c, PRIORITIZATION_PHASE);
    ContextView {
        result: verdicts,
        result_by_phase: c.result_by_phase.insert(RESULT_PACKAGE_PHASE@, verdicts),
        ..c
    }
}

/// A copy of a snapshot that may be absent.
fn copy_snapshot(snapshot: Option<&EvaluationResult>) -> (r: EvaluationResult)
    ensures
        r@ == crate::core_qualification_dto::verdicts_of(snapshot),
{
    match snapshot {
        Some(verdicts) => verdicts.snapshot(),
        None => EvaluationResult::new(),
    }
}

/// Prepares the evaluation. It leaves the context as it is.
#[derive(Clone, Copy, Debug, PartialEq, Eq, Structural)]
pub struct InitializationPhase;

impl Phase for InitializationPhase {
    open spec fn prepared(&self, c: ContextView) -> ContextView {
        c
    }

    open spec fn executed(&self, c: ContextView) -> ContextView {
        c
    }

    open spec fn concluded(&self, c: ContextView) -> ContextView {
        c
    }

    fn before(&self, context: &mut EvaluationContext) {
    }

    fn execute(&self, context: &mut EvaluationContext) {
    }

    fn after(&self, context: &mut EvaluationContext) {
    }
}

/// Checks that the attributes hold the randomization key of every experiment.
#[derive(Clone, Copy, Debug, PartialEq, Eq, Structural)]
pub struct ValidationPhase;

impl Phase for ValidationPhase {
    open spec fn prepared(&self, c: ContextView) -> ContextView {
        c
    }

    open spec fn executed(&self, c: ContextView) -> ContextView {
        validated(c)
    }

    open spec fn concluded(&self, c: ContextView) -> ContextView {
        c
    }

    fn before(&self, context: &mut EvaluationContext) {
    }

    fn execute(&self, context: &mut EvaluationContext) {
        if context.error_code > 0 {
            return;
        }
        let mut k: usize = 0;
        while k < context.experiment_list.len()
            invariant
                *context == *old(context),
                context.error_code <= 0,
                k <= context.experiment_list.len(),
                first_missing(context@.experiment_list, context@.context_map, 0) == first_missing(
                    context@.experiment_list,
                    context@.context_map,
                    k as int,
                ),
            decreases context.experiment_list.len() - k,
        {
            let missing = context.attribute(
                context.experiment_list[k].randomization_unit_key.as_str(),
            ).is_none();
            if missing {
                let mut message = String::from_str(MISSING_KEY_PREFIX);
                message.append(context.experiment_list[k].randomization_unit_key.as_str());
                context.error_code = MISSING_KEY_CODE;
                context.error_message = message;
                return;
            }
            k = k + 1;
        }
    }

    fn after(&self, context: &mut EvaluationContext) {
    }
}

/// Runs the mapper chain: every mapper's `before`, `map` and `after`, in the
/// order of the list.
#[derive(Debug, PartialEq, Eq)]
pub struct MappingPhase {
    pub mappers: Vec<MapperKind>,
}

impl Phase for MappingPhase {
    open spec fn prepared(&self, c: ContextView) -> ContextView {
        c
    }

    open spec fn executed(&self, c: ContextView) -> ContextView {
        run_mappers(self.mappers@, c)
    }

    open spec fn concluded(&self, c: ContextView) -> ContextView {
        c
    }

    fn before(&self, context: &mut EvaluationContext) {
    }

    fn execute(&self, context: &mut EvaluationContext) {
        let mut i: usize = 0;
        while i < self.mappers.len()
            invariant
                i <= self.mappers.len(),
                context@ == run_mappers(self.mappers@.take(i as int), old(context)@),
            decreases self.mappers.len() - i,
        {
            proof {
                assert(self.mappers@.take(i + 1).drop_last() =~= self.mappers@.take(i as int));
            }
            let mapper = self.mappers[i];
            mapper.before(context);
            mapper.map(context);
            mapper.after(context);
            i = i + 1;
        }
        proof {
            assert(self.mappers@.take(i as int) =~= self.mappers@);
        }
    }

    fn after(&self, context: &mut EvaluationContext) {
    }
}

/// Merges what the mappers found into candidates, and lets one experiment
/// of a layer keep a unit that several of them hashed to a variant.
#[derive(Clone, Copy, Debug, PartialEq, Eq, Structural)]
pub struct CollisionResolvePhase;

impl Phase for CollisionResolvePhase {
    open spec fn prepared(&self, c: ContextView) -> ContextView {
        c
    }

    open spec fn executed(&self, c: ContextView) -> ContextView {
        resolved(c)
    }

    open spec fn concluded(&self, c: ContextView) -> ContextView {
        c
    }

    fn before(&self, context: &mut EvaluationContext) {
    }

    fn execute(&self, context: &mut EvaluationContext) {
        let opted = context.mapper_snapshot(OPT_IN_MAPPER);
        let on_list = context.mapper_snapshot(UID_LIST_MAPPER);
        let hashed = context.mapper_snapshot(VARIANT_MAPPER);
        let merge = MergeDecider {
            opted,
            on_list,
            hashed,
            ruled: context.mapper_snapshot(VARIANT_RULE_MAPPER),
        };
        let candidates = survey_catalog(&merge, &context.experiment_list);
        let decider = CollisionDecider {
            experiments: &context.experiment_list,
            claims: unit_claims(&context.experiment_list, hashed),
            candidates: Some(&candidates),
            hashed,
            opted,
            on_list,
        };
        let verdicts = survey_catalog(&decider, &context.experiment_list);
        context.keep_phase_snapshot(COLLISION_RESOLVE_PHASE, verdicts);
    }

    fn after(&self, context: &mut EvaluationContext) {
    }
}

/// Hands the surviving candidates on. No verdict changes here.
#[derive(Clone, Copy, Debug, PartialEq, Eq, Structural)]
pub struct PrioritizationPhase;

impl Phase for PrioritizationPhase {
    open spec fn prepared(&self, c: ContextView) -> ContextView {
        c
    }

    open spec fn executed(&self, c: ContextView) -> ContextView {
        prioritized(c)
    }

    open spec fn concluded(&self, c: ContextView) -> ContextView {
        c
    }

    fn before(&self, context: &mut EvaluationContext) {
    }

    fn execute(&self, context: &mut EvaluationContext) {
        let verdicts = copy_snapshot(context.phase_snapshot(COLLISION_RESOLVE_PHASE));
        context.keep_phase_snapshot(PRIORITIZATION_PHASE, verdicts);
    }

    fn after(&self, context: &mut EvaluationContext) {
    }
}

/// Lists the values of the qualified variants, in one pass and without
/// hashing again.
#[derive(Clone, Copy, Debug, PartialEq, Eq, Structural)]
pub struct ContextPhase;

impl Phase for ContextPhase {
    open spec fn prepared(&self, c: ContextView) -> ContextView {
        c
    }

    open spec fn executed(&self, c: ContextView) -> ContextView {
        enriched(c)
    }

    open spec fn concluded(&self, c: ContextView) -> ContextView {
        c
    }

    fn before(&self, context: &mut EvaluationContext) {
    }

    fn execute(&self, context: &mut EvaluationContext) {
        let decider = ValueDecider { decided: context.phase_snapshot(PRIORITIZATION_PHASE) };
        let verdicts = survey_catalog(&decider, &context.experiment_list);
        context.keep_phase_snapshot(CONTEXT_PHASE, verdicts);
    }

    fn after(&self, context: &mut EvaluationContext) {
    }
}

/// Makes the final verdicts the result that the caller reads.
#[derive(Clone, Copy, Debug, PartialEq, Eq, Structural)]
pub struct ResultPackagedPhase;

impl Phase for ResultPackagedPhase {
    open spec fn prepared(&self, c: ContextView) -> ContextView {
        c
    }

    open spec fn executed(&self, c: ContextView) -> ContextView {
        packaged(c)
    }

    open spec fn concluded(&self, c: ContextView) -> ContextView {
        c
    }

    fn before(&self, context: &mut EvaluationContext) {
    }

    fn execute(&self, context: &mut EvaluationContext) {
        let verdicts = copy_snapshot(context.phase_snapshot(PRIORITIZATION_PHASE));
        let sealed = verdicts.snapshot();
        context.result = verdicts;
        context.keep_phase_snapshot(RESULT_PACKAGE_PHASE, sealed);
    }

    fn after(&self, context: &mut EvaluationContext) {
    }
}

/// The phases that an engine can hold.
#[derive(Debug, PartialEq, Eq)]
pub enum PhaseKind {
    Initialization(InitializationPhase),
    Validation(ValidationPhase),
    Mapping(MappingPhase),
    CollisionResolve(CollisionResolvePhase),
    Prioritization(PrioritizationPhase),
    Context(ContextPhase),
    ResultPackaged(ResultPackagedPhase),
}

/// The view of a `PhaseKind`: which phase it is, and for the mapping phase
/// its mappers.
pub enum PhaseView {
    Initialization,
    Validation,
    Mapping(Seq<MapperKind>),
    CollisionResolve,
    Prioritization,
    Context,
    ResultPackaged,
}

impl View for PhaseKind {
    type V = PhaseView;

    open spec fn view(&self) -> PhaseView {
        match *self {
            PhaseKind::Initialization(_) => PhaseView::Initialization,
            PhaseKind::Validation(_) => PhaseView::Validation,
            PhaseKind::Mapping(phase) => PhaseView::Mapping(phase.mappers@),
            PhaseKind::CollisionResolve(_) => PhaseView::CollisionResolve,
            PhaseKind::Prioritization(_) => PhaseView::Prioritization,
            PhaseKind::Context(_) => PhaseView::Context,
            PhaseKind::ResultPackaged(_) => PhaseView::ResultPackaged,
        }
    }
}

/// The context after the three calls of a phase.
pub open spec fn phase_effect(phase: PhaseView, c: ContextView) -> ContextView {
    match phase {
        PhaseView::Initialization => c,
        PhaseView::Validation => validated(c),
        PhaseView::Mapping(mappers) => run_mappers(mappers, c),
        PhaseView::CollisionResolve => resolved(c),
        PhaseView::Prioritization => prioritized(c),
        PhaseView::Context => enriched(c),
        PhaseView::ResultPackaged => packaged(c),
    }
}

impl Phase for PhaseKind {
    open spec fn prepared(&self, c: ContextView) -> ContextView {
        c
    }

    open spec fn executed(&self, c: ContextView) -> ContextView {
        phase_effect(self@, c)
    }

    open spec fn concluded(&self, c: ContextView) -> ContextView {
        c
    }

    fn before(&self, context: &mut EvaluationContext) {
        match self {
            PhaseKind::Initialization(phase) => phase.before(context),
            PhaseKind::Validation(phase) => phase.before(context),
            PhaseKind::Mapping(phase) => phase.before(context),
            PhaseKind::CollisionResolve(phase) => phase.before(context),
            PhaseKind::Prioritization(phase) => phase.before(context),
            PhaseKind::Context(phase) => phase.before(context),
            PhaseKind::ResultPackaged(phase) => phase.before(context),
        }
    }

    fn execute(&self, context: &mut EvaluationContext) {
        match self {
            PhaseKind::Initialization(phase) => phase.execute(context),
            PhaseKind::Validation(phase) => phase.execute(context),
            PhaseKind::Mapping(phase) => phase.execute(context),
            PhaseKind::CollisionResolve(phase) => phase.execute(context),
            PhaseKind::Prioritization(phase) => phase.execute(context),
            PhaseKind::Context(phase) => phase.execute(context),
            PhaseKind::ResultPackaged(phase) => phase.execute(context),
        }
    }

    fn after(&self, context: &mut EvaluationContext) {
        match self {
            PhaseKind::Initialization(phase) => phase.after(context),
            PhaseKind::Validation(phase) => phase.after(context),
            PhaseKind::Mapping(phase) => phase.after(context),
            PhaseKind::CollisionResolve(phase) => phase.after(context),
            PhaseKind::Prioritization(phase) => phase.after(context),
            PhaseKind::Context(phase) => phase.after(context),
            PhaseKind::ResultPackaged(phase) => phase.after(context),
        }
    }
}

/// The views of a list of phases.
pub open spec fn phase_views(phases: Seq<PhaseKind>) -> Seq<PhaseView> {
    phases.map_values(|p: PhaseKind| p@)
}

/// The context after the engine has run `phases` on `c`: each phase in
/// order, and none after the first that leaves an error code above zero.
pub open spec fn outcome(phases: Seq<PhaseView>, c: ContextView) -> ContextView
    decreases phases.len(),
{
    if phases.len() == 0 {
        c
    } else {
        let before = outcome(phases.drop_last(), c);
        if phases.len() > 1 && before.error_code > 0 {
            before
        } else {
            phase_effect(phases.last(), before)
        }
    }
}

/// The mapper chain of the default engine.
pub open spec fn default_mappers() -> Seq<MapperKind> {
    seq![
        MapperKind::OptIn(OptInMapper),
        MapperKind::UidList(UidListMapper),
        MapperKind::VariantRule(VariantRuleMapper),
        MapperKind::Variant(VariantMapper),
    ]
}

/// The phases of the default engine.
pub open spec fn default_phases() -> Seq<PhaseView> {
    seq![
        PhaseView::Initialization,
        PhaseView::Validation,
        PhaseView::Mapping(default_mappers()),
        PhaseView::CollisionResolve,
        PhaseView::Prioritization,
        PhaseView::Context,
        PhaseView::ResultPackaged,
    ]
}

/// The engine: an ordered list of phases.
#[derive(Debug, PartialEq, Eq)]
pub struct QualificationEngine {
    pub phases: Vec<PhaseKind>,
}

impl QualificationEngine {
    /// Runs the phase at place `index` on the context, and says whether the
    /// engine goes on from there: there is a next phase, and this one left no
    /// error code above zero.
    pub fn run_phase(&self, index: usize, context: &mut EvaluationContext) -> (more: bool)
        requires
            index < self.phases.len(),
        ensures
            final(context)@ == phase_effect(self.phases[index as int]@, old(context)@),
            more == (final(context)@.error_code <= 0 && index + 1 < self.phases.len()),
    {
        let phase = &self.phases[index];
        phase.before(context);
        phase.execute(context);
        phase.after(context);
        context.error_code <= 0 && index + 1 < self.phases.len()
    }

    /// Runs the phases on the context, in order, and stops after the first
    /// phase that leaves an error code above zero.
    pub fn qualify(&self, context: &mut EvaluationContext)
        ensures
            final(context)@ == outcome(phase_views(self.phases@), old(context)@),
    {
        let mut i: usize = 0;
        proof {
            assert(phase_views(self.phases@).take(self.phases@.len() as int) =~= phase_views(
                self.phases@,
            ));
        }
        while i < self.phases.len()
            invariant_except_break
                context@ == outcome(phase_views(self.phases@).take(i as int), old(context)@),
                0 < i < self.phases.len() ==> context@.error_code <= 0,
            invariant
                i <= self.phases.len(),
                phase_views(self.phases@).take(self.phases@.len() as int) == phase_views(
                    self.phases@,
                ),
            ensures
                context@ == outcome(phase_views(self.phases@), old(context)@),
            decreases self.phases.len() - i,
        {
            proof {
                let views = phase_views(self.phases@);
                assert(views.take(i + 1).drop_last() =~= views.take(i as int));
            }
            let more = self.run_phase(i, context);
            i = i + 1;
            if !more && i < self.phases.len() {
                proof {
                    lemma_outcome_stops(phase_views(self.phases@), old(context)@, i as int);
                }
                break;
            }
        }
    }
}

/// Once the engine has stopped on an error, the phases that follow change
/// nothing.
pub proof fn lemma_outcome_stops(phases: Seq<PhaseView>, c: ContextView, n: int)
    requires
        1 <= n <= phases.len(),
        outcome(phases.take(n), c).error_code > 0,
    ensures
        outcome(phases, c) == outcome(phases.take(n), c),
    decreases phases.len() - n,
{
    if n == phases.len() {
        assert(phases.take(n) =~= phases);
    } else {
        let longer = phases.take(n + 1);
        assert(longer.drop_last() =~= phases.take(n));
        lemma_outcome_stops(phases, c, n + 1);
    }
}

impl Default for QualificationEngine {
    /// The engine with the seven phases in their order, the mapping phase
    /// with the four mappers in theirs.
    fn default() -> (engine: Self)
        ensures
            engine.phases@.len() == 7,
            phase_views(engine.phases@) == default_phases(),
    {
        let mut mappers: Vec<MapperKind> = Vec::new();
        mappers.push(MapperKind::OptIn(OptInMapper));
        mappers.push(MapperKind::UidList(UidListMapper));
        mappers.push(MapperKind::VariantRule(VariantRuleMapper));
        mappers.push(MapperKind::Variant(VariantMapper));
        assert(mappers@ =~= default_mappers());
        let mut phases: Vec<PhaseKind> = Vec::new();
        phases.push(PhaseKind::Initialization(InitializationPhase));
        phases.push(PhaseKind::Validation(ValidationPhase));
        phases.push(PhaseKind::Mapping(MappingPhase { mappers }));
        phases.push(PhaseKind::CollisionResolve(CollisionResolvePhase));
        phases.push(PhaseKind::Prioritization(PrioritizationPhase));
        phases.push(PhaseKind::Context(ContextPhase));
        phases.push(PhaseKind::ResultPackaged(ResultPackagedPhase));
        QualificationEngine { phases }
    }
}

} // verus!

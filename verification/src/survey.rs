//! One pass over the catalog that asks a rule for a verdict on every variant
//! and collects the verdicts by variant id.

use vstd::prelude::*;
use crate::core_qualification_dto::{EvaluationResult, QualificationResult, Verdict};
use crate::ep_dto::{catalog, Experiment, ExperimentView};

verus! {

/// A rule of a pass: the verdict on variant `i` of an experiment, or `None`
/// where the pass leaves that variant alone.
pub type Rule = spec_fn(ExperimentView, int) -> Option<Verdict>;

/// The verdicts after the first `n` variants of `e`, on top of `acc`. The
/// verdicts are kept by variant id, as the result is: a later verdict for a
/// variant id replaces an earlier one. A pass does not tell variants with one
/// id apart; the rule of the variant mapper gives such an id an error.
pub open spec fn record_variants(
    acc: Map<i32, Verdict>,
    e: ExperimentView,
    rule: Rule,
    n: int,
) -> Map<i32, Verdict>
    decreases n,
{
    if n <= 0 {
        acc
    } else {
        let before = record_variants(acc, e, rule, n - 1);
        match rule(e, n - 1) {
            Some(verdict) => before.insert(e.variants[n - 1].variant_id, verdict),
            None => before,
        }
    }
}

/// The verdicts after the first `n` experiments.
pub open spec fn record_experiments(experiments: Seq<ExperimentView>, rule: Rule, n: int) -> Map<
    i32,
    Verdict,
>
    decreases n,
{
    if n <= 0 {
        Map::empty()
    } else {
        record_variants(
            record_experiments(experiments, rule, n - 1),
            experiments[n - 1],
            rule,
            experiments[n - 1].variants.len() as int,
        )
    }
}

/// The verdicts of a pass over the whole catalog.
pub open spec fn survey(experiments: Seq<ExperimentView>, rule: Rule) -> Map<i32, Verdict> {
    record_experiments(experiments, rule, experiments.len() as int)
}

/// Whether variant `i` of experiment `k` has the id `id` and gets the verdict
/// `verdict`.
pub open spec fn decided_at(
    experiments: Seq<ExperimentView>,
    rule: Rule,
    k: int,
    i: int,
    id: i32,
    verdict: Verdict,
) -> bool {
    &&& 0 <= k < experiments.len()
    &&& 0 <= i < experiments[k].variants.len()
    &&& experiments[k].variants[i].variant_id == id
    &&& rule(experiments[k], i) == Some(verdict)
}

proof fn lemma_record_variants(
    acc: Map<i32, Verdict>,
    e: ExperimentView,
    rule: Rule,
    n: int,
    id: i32,
)
    requires
        0 <= n <= e.variants.len(),
    ensures
        ({
            let after = record_variants(acc, e, rule, n);
            let hit = exists|i: int|
                0 <= i < n && e.variants[i].variant_id == id && rule(e, i) is Some;
            &&& after.contains_key(id) <==> (acc.contains_key(id) || hit)
            &&& after.contains_key(id) && !hit ==> after[id] == acc[id]
            &&& hit ==> exists|i: int|
                0 <= i < n && e.variants[i].variant_id == id && rule(e, i) == Some(after[id])
        }),
    decreases n,
{
    if n > 0 {
        lemma_record_variants(acc, e, rule, n - 1, id);
    }
}

proof fn lemma_record_experiments(
    experiments: Seq<ExperimentView>,
    rule: Rule,
    n: int,
    id: i32,
)
    requires
        0 <= n <= experiments.len(),
    ensures
        ({
            let after = record_experiments(experiments, rule, n);
            &&& after.contains_key(id) <==> exists|k: int, i: int|
                k < n && #[trigger] decided_at(
                    experiments,
                    rule,
                    k,
                    i,
                    id,
                    rule(experiments[k], i)->0,
                )
            &&& after.contains_key(id) ==> exists|k: int, i: int|
                k < n && #[trigger] decided_at(experiments, rule, k, i, id, after[id])
        }),
    decreases n,
{
    if n > 0 {
        lemma_record_experiments(experiments, rule, n - 1, id);
        let e = experiments[n - 1];
        let before = record_experiments(experiments, rule, n - 1);
        let after = record_experiments(experiments, rule, n);
        lemma_record_variants(before, e, rule, e.variants.len() as int, id);
        let hit = exists|i: int|
            0 <= i < e.variants.len() && e.variants[i].variant_id == id && rule(e, i) is Some;
        if hit {
            // The last experiment decides: one of its variants is the source.
            let i = choose|i: int|
                0 <= i < e.variants.len() && e.variants[i].variant_id == id && rule(e, i) == Some(
                    after[id],
                );
            assert(decided_at(experiments, rule, n - 1, i, id, after[id]));
            assert(decided_at(experiments, rule, n - 1, i, id, rule(experiments[n - 1], i)->0));
        } else if before.contains_key(id) {
            // An earlier experiment decided, and its verdict stands.
            let (k, i) = choose|k: int, i: int|
                k < n - 1 && #[trigger] decided_at(experiments, rule, k, i, id, before[id]);
            assert(k < n && decided_at(experiments, rule, k, i, id, after[id]));
            assert(decided_at(experiments, rule, k, i, id, rule(experiments[k], i)->0));
        }
        if exists|k: int, i: int|
            k < n && #[trigger] decided_at(
                experiments,
                rule,
                k,
                i,
                id,
                rule(experiments[k], i)->0,
            ) {
            let (k, i) = choose|k: int, i: int|
                k < n && #[trigger] decided_at(
                    experiments,
                    rule,
                    k,
                    i,
                    id,
                    rule(experiments[k], i)->0,
                );
            if k == n - 1 {
                assert(0 <= i < e.variants.len() && e.variants[i].variant_id == id && rule(e, i)
                    is Some);
            } else {
                assert(k < n - 1);
            }
        }
    }
}

/// A variant id has a verdict after a pass exactly if the rule gives one to
/// some variant with that id.
pub proof fn lemma_survey_keys(experiments: Seq<ExperimentView>, rule: Rule, id: i32)
    ensures
        survey(experiments, rule).contains_key(id) <==> exists|k: int, i: int| #[trigger]
            decided_at(experiments, rule, k, i, id, rule(experiments[k], i)->0),
{
    lemma_record_experiments(experiments, rule, experiments.len() as int, id);
}

/// The verdict that a pass leaves for a variant id is one that the rule gives
/// to some variant with that id.
pub proof fn lemma_survey_source(experiments: Seq<ExperimentView>, rule: Rule, id: i32)
    requires
        survey(experiments, rule).contains_key(id),
    ensures
        exists|k: int, i: int| #[trigger]
            decided_at(experiments, rule, k, i, id, survey(experiments, rule)[id]),
{
    lemma_record_experiments(experiments, rule, experiments.len() as int, id);
}

/// The view of a verdict that may be absent.
pub open spec fn verdict_of(r: Option<QualificationResult>) -> Option<Verdict> {
    match r {
        Some(q) => Some(q@),
        None => None,
    }
}

/// The rule of one pass, in a form that can be run. `plan` looks at an
/// experiment once; `decide` then gives the verdict on each of its variants.
pub trait Decider {
    type Plan;

    /// The rule that `decide` computes.
    spec fn rule(&self) -> Rule;

    /// Whether what the decider holds is what its rule speaks of.
    spec fn ready(&self) -> bool;

    /// Whether `plan` is what `plan` returns for `e`.
    spec fn plan_fits(&self, plan: &Self::Plan, e: ExperimentView) -> bool;

    fn plan(&self, e: &Experiment) -> (p: Self::Plan)
        requires
            self.ready(),
        ensures
            self.plan_fits(&p, e@),
    ;

    fn decide(&self, e: &Experiment, plan: &Self::Plan, i: usize) -> (r: Option<
        QualificationResult,
    >)
        requires
            self.ready(),
            i < e.variants.len(),
            self.plan_fits(plan, e@),
        ensures
            verdict_of(r) == (self.rule())(e@, i as int),
    ;
}

/// Runs one pass over the catalog.
pub fn survey_catalog<D: Decider>(decider: &D, experiments: &Vec<Experiment>) -> (r:
    EvaluationResult)
    requires
        decider.ready(),
    ensures
        r@ == survey(catalog(experiments@), decider.rule()),
{
    let mut verdicts = EvaluationResult::new();
    let mut k: usize = 0;
    while k < experiments.len()
        invariant
            decider.ready(),
            k <= experiments.len(),
            verdicts@ == record_experiments(catalog(experiments@), decider.rule(), k as int),
        decreases experiments.len() - k,
    {
        let e = &experiments[k];
        let plan = decider.plan(e);
        let mut i: usize = 0;
        while i < e.variants.len()
            invariant
                decider.ready(),
                i <= e.variants.len(),
                e@.variants.len() == e.variants.len(),
                decider.plan_fits(&plan, e@),
                verdicts@ == record_variants(
                    record_experiments(catalog(experiments@), decider.rule(), k as int),
                    e@,
                    decider.rule(),
                    i as int,
                ),
            decreases e.variants.len() - i,
        {
            match decider.decide(e, &plan, i) {
                Some(outcome) => {
                    verdicts.record(e.variants[i].variant_id, outcome);
                },
                None => {},
            }
            i = i + 1;
        }
        k = k + 1;
    }
    verdicts
}

} // verus!

//! The rules of the phases that follow the mapper chain: merging the mappers'
//! verdicts into candidates, resolving collisions between experiments of one
//! layer, and listing the values of the qualified variants.
//!
//! A layer is the set of experiments with one hashing constant and one
//! randomization key. Of the experiments of a layer that hashing gave the
//! unit to, the one with the highest flags keeps it, and among equal flags
//! the one with the lowest id.

use vstd::prelude::*;
use crate::core_qualification_dto::{
    verdicts_of,
    EvaluationResult,
    QualificationResult,
    QualificationResultType,
    Verdict,
};
use crate::ep_dto::{catalog, Experiment, ExperimentView};
use crate::mapping::{is_forced, verdict};
use crate::survey::{Decider, Rule};
use crate::text::same_text;

verus! {

/// The reason that collision resolution gives for turning a candidate down.
pub const REASON_OUTRANKED: &'static str = "another experiment of the layer has the unit";

/// The verdict that stands for a variant id after the mapper chain: that of
/// the opt-in mapper, else that of the list mapper, else that of the variant
/// mapper, else that of the rule mapper.
pub open spec fn preferred(
    id: i32,
    opted: Map<i32, Verdict>,
    on_list: Map<i32, Verdict>,
    hashed: Map<i32, Verdict>,
    ruled: Map<i32, Verdict>,
) -> Option<Verdict> {
    if opted.contains_key(id) {
        Some(opted[id])
    } else if on_list.contains_key(id) {
        Some(on_list[id])
    } else if hashed.contains_key(id) {
        Some(hashed[id])
    } else if ruled.contains_key(id) {
        Some(ruled[id])
    } else {
        None
    }
}

/// The rule that merges the mappers' verdicts.
pub open spec fn merge_rule(
    opted: Map<i32, Verdict>,
    on_list: Map<i32, Verdict>,
    hashed: Map<i32, Verdict>,
    ruled: Map<i32, Verdict>,
) -> Rule {
    |e: ExperimentView, i: int| preferred(e.variants[i].variant_id, opted, on_list, hashed, ruled)
}

/// A copy of the verdict that `snapshot` holds for `id`, if it holds one.
fn copy_verdict(snapshot: Option<&EvaluationResult>, id: i32) -> (r: Option<QualificationResult>)
    ensures
        match r {
            Some(q) => verdicts_of(snapshot).contains_key(id) && verdicts_of(snapshot)[id] == q@,
            None => !verdicts_of(snapshot).contains_key(id),
        },
{
    match snapshot {
        Some(verdicts) => match verdicts.get(id) {
            Some(q) => Some(q.duplicate()),
            None => None,
        },
        None => None,
    }
}

/// Runs the rule that merges the mappers' verdicts.
pub struct MergeDecider<'a> {
    pub opted: Option<&'a EvaluationResult>,
    pub on_list: Option<&'a EvaluationResult>,
    pub hashed: Option<&'a EvaluationResult>,
    pub ruled: Option<&'a EvaluationResult>,
}

impl<'a> Decider for MergeDecider<'a> {
    type Plan = ();

    open spec fn rule(&self) -> Rule {
        merge_rule(
            verdicts_of(self.opted),
            verdicts_of(self.on_list),
            verdicts_of(self.hashed),
            verdicts_of(self.ruled),
        )
    }

    open spec fn ready(&self) -> bool {
        true
    }

    open spec fn plan_fits(&self, plan: &(), e: ExperimentView) -> bool {
        true
    }

    fn plan(&self, e: &Experiment) -> (p: ()) {
    }

    fn decide(&self, e: &Experiment, plan: &(), i: usize) -> (r: Option<QualificationResult>) {
        let id = e.variants[i].variant_id;
        match copy_verdict(self.opted, id) {
            Some(q) => Some(q),
            None => match copy_verdict(self.on_list, id) {
                Some(q) => Some(q),
                None => match copy_verdict(self.hashed, id) {
                    Some(q) => Some(q),
                    None => copy_verdict(self.ruled, id),
                },
            },
        }
    }
}

/// Whether `verdicts` holds `Qualified` for the variant id.
pub open spec fn qualified_in(verdicts: Map<i32, Verdict>, id: i32) -> bool {
    verdicts.contains_key(id) && verdicts[id].kind == QualificationResultType::Qualified
}

/// Whether hashing gave the unit to a variant of `e`.
pub open spec fn claims_unit(e: ExperimentView, hashed: Map<i32, Verdict>) -> bool {
    exists|i: int|
        0 <= i < e.variants.len() && qualified_in(hashed, #[trigger] e.variants[i].variant_id)
}

/// Whether two experiments share a layer: they have one hashing constant
/// and take the unit from one attribute, so that they compete for the same
/// randomization unit.
pub open spec fn same_layer(a: ExperimentView, b: ExperimentView) -> bool {
    a.hashing_constant == b.hashing_constant && a.randomization_unit_key
        == b.randomization_unit_key
}

/// Whether `a` comes before `b` in a layer: by the higher flags, and among
/// equal flags by the lower id.
pub open spec fn outranks(a: ExperimentView, b: ExperimentView) -> bool {
    a.experiment_flags > b.experiment_flags || (a.experiment_flags == b.experiment_flags
        && a.experiment_id < b.experiment_id)
}

/// Whether `x` takes the unit from `e`.
pub open spec fn rival(x: ExperimentView, e: ExperimentView, hashed: Map<i32, Verdict>) -> bool {
    same_layer(x, e) && outranks(x, e) && claims_unit(x, hashed)
}

/// Whether some experiment of the catalog takes the unit from `e`.
pub open spec fn outranked(
    experiments: Seq<ExperimentView>,
    hashed: Map<i32, Verdict>,
    e: ExperimentView,
) -> bool {
    exists|k: int| 0 <= k < experiments.len() && rival(#[trigger] experiments[k], e, hashed)
}

/// The rule that resolves collisions. A candidate stays as it is, unless it
/// is qualified by hashing and its experiment is outranked: then it is not
/// qualified.
pub open spec fn resolve_rule(
    experiments: Seq<ExperimentView>,
    candidates: Map<i32, Verdict>,
    hashed: Map<i32, Verdict>,
    opted: Map<i32, Verdict>,
    on_list: Map<i32, Verdict>,
) -> Rule {
    |e: ExperimentView, i: int|
        {
            let id = e.variants[i].variant_id;
            if !candidates.contains_key(id) {
                None
            } else if qualified_in(candidates, id) && !is_forced(id, opted, on_list) && outranked(
                experiments,
                hashed,
                e,
            ) {
                Some(verdict(QualificationResultType::NotQualified, REASON_OUTRANKED))
            } else {
                Some(candidates[id])
            }
        }
}

/// Whether `snapshot` holds `Qualified` for `id`.
fn is_qualified(snapshot: Option<&EvaluationResult>, id: i32) -> (r: bool)
    ensures
        r == qualified_in(verdicts_of(snapshot), id),
{
    match snapshot {
        Some(verdicts) => match verdicts.kind_of(id) {
            Some(kind) => kind == QualificationResultType::Qualified,
            None => false,
        },
        None => false,
    }
}

/// For each experiment, whether hashing gave the unit to one of its variants.
pub fn unit_claims(experiments: &Vec<Experiment>, hashed: Option<&EvaluationResult>) -> (claims:
    Vec<bool>)
    ensures
        claims@.len() == experiments@.len(),
        forall|k: int|
            0 <= k < experiments@.len() ==> #[trigger] claims@[k] == claims_unit(
                experiments@[k]@,
                verdicts_of(hashed),
            ),
{
    let mut claims: Vec<bool> = Vec::new();
    let mut k: usize = 0;
    while k < experiments.len()
        invariant
            k <= experiments.len(),
            claims@.len() == k,
            forall|j: int|
                0 <= j < k ==> #[trigger] claims@[j] == claims_unit(
                    experiments@[j]@,
                    verdicts_of(hashed),
                ),
        decreases experiments.len() - k,
    {
        let e = &experiments[k];
        let mut found: bool = false;
        let mut i: usize = 0;
        while i < e.variants.len() && !found
            invariant
                i <= e.variants.len(),
                e@.variants.len() == e.variants.len(),
                found ==> claims_unit(e@, verdicts_of(hashed)),
                !found ==> forall|j: int|
                    0 <= j < i ==> !qualified_in(
                        verdicts_of(hashed),
                        #[trigger] e@.variants[j].variant_id,
                    ),
            decreases e.variants.len() - i + (if found { 0int } else { 1int }),
        {
            if is_qualified(hashed, e.variants[i].variant_id) {
                assert(qualified_in(verdicts_of(hashed), e@.variants[i as int].variant_id));
                found = true;
            } else {
                i = i + 1;
            }
        }
        claims.push(found);
        k = k + 1;
    }
    claims
}

/// Runs the rule that resolves collisions.
pub struct CollisionDecider<'a> {
    pub experiments: &'a Vec<Experiment>,
    pub claims: Vec<bool>,
    pub candidates: Option<&'a EvaluationResult>,
    pub hashed: Option<&'a EvaluationResult>,
    pub opted: Option<&'a EvaluationResult>,
    pub on_list: Option<&'a EvaluationResult>,
}

impl<'a> Decider for CollisionDecider<'a> {
    type Plan = bool;

    open spec fn rule(&self) -> Rule {
        resolve_rule(
            catalog(self.experiments@),
            verdicts_of(self.candidates),
            verdicts_of(self.hashed),
            verdicts_of(self.opted),
            verdicts_of(self.on_list),
        )
    }

    open spec fn ready(&self) -> bool {
        &&& self.claims@.len() == self.experiments@.len()
        &&& forall|k: int|
            0 <= k < self.experiments@.len() ==> #[trigger] self.claims@[k] == claims_unit(
                self.experiments@[k]@,
                verdicts_of(self.hashed),
            )
    }

    open spec fn plan_fits(&self, plan: &bool, e: ExperimentView) -> bool {
        *plan == outranked(catalog(self.experiments@), verdicts_of(self.hashed), e)
    }

    fn plan(&self, e: &Experiment) -> (p: bool) {
        let mut k: usize = 0;
        while k < self.experiments.len()
            invariant
                self.ready(),
                k <= self.experiments.len(),
                forall|j: int|
                    0 <= j < k ==> !rival(
                        #[trigger] catalog(self.experiments@)[j],
                        e@,
                        verdicts_of(self.hashed),
                    ),
            decreases self.experiments.len() - k,
        {
            let x = &self.experiments[k];
            let before = x.experiment_flags > e.experiment_flags || (x.experiment_flags
                == e.experiment_flags && x.experiment_id < e.experiment_id);
            if self.claims[k] && before && same_text(
                x.hashing_constant.as_str(),
                e.hashing_constant.as_str(),
            ) && same_text(
                x.randomization_unit_key.as_str(),
                e.randomization_unit_key.as_str(),
            ) {
                assert(rival(catalog(self.experiments@)[k as int], e@, verdicts_of(self.hashed)));
                return true;
            }
            k = k + 1;
        }
        false
    }

    fn decide(&self, e: &Experiment, plan: &bool, i: usize) -> (r: Option<QualificationResult>) {
        let id = e.variants[i].variant_id;
        let candidate = match self.candidates {
            Some(verdicts) => verdicts.get(id),
            None => None,
        };
        match candidate {
            None => None,
            Some(q) => {
                let forced = holds_verdict(self.opted, id) || holds_verdict(
                    self.on_list,
                    id,
                );
                if q.qualification_result_type == QualificationResultType::Qualified && !forced
                    && *plan {
                    Some(
                        QualificationResult::new(
                            QualificationResultType::NotQualified,
                            REASON_OUTRANKED,
                        ),
                    )
                } else {
                    Some(q.duplicate())
                }
            },
        }
    }
}

/// Whether `snapshot` holds a verdict for `id`.
fn holds_verdict(snapshot: Option<&EvaluationResult>, id: i32) -> (r: bool)
    ensures
        r == verdicts_of(snapshot).contains_key(id),
{
    match snapshot {
        Some(verdicts) => verdicts.get(id).is_some(),
        None => false,
    }
}

/// The rule that lists what the caller gets: for each qualified variant, its
/// value.
pub open spec fn value_rule(decided: Map<i32, Verdict>) -> Rule {
    |e: ExperimentView, i: int|
        if qualified_in(decided, e.variants[i].variant_id) {
            Some(Verdict { kind: QualificationResultType::Qualified, reason: e.variants[i].value })
        } else {
            None
        }
}

/// Runs the rule that lists the values of the qualified variants.
pub struct ValueDecider<'a> {
    pub decided: Option<&'a EvaluationResult>,
}

impl<'a> Decider for ValueDecider<'a> {
    type Plan = ();

    open spec fn rule(&self) -> Rule {
        value_rule(verdicts_of(self.decided))
    }

    open spec fn ready(&self) -> bool {
        true
    }

    open spec fn plan_fits(&self, plan: &(), e: ExperimentView) -> bool {
        true
    }

    fn plan(&self, e: &Experiment) -> (p: ()) {
    }

    fn decide(&self, e: &Experiment, plan: &(), i: usize) -> (r: Option<QualificationResult>) {
        if is_qualified(self.decided, e.variants[i].variant_id) {
            Some(
                QualificationResult {
                    qualification_result_type: QualificationResultType::Qualified,
                    qualification_result_reason: e.variants[i].value.clone(),
                },
            )
        } else {
            None
        }
    }
}

} // verus!

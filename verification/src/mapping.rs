//! The rules of the four mappers: opt-in, list, rule choice, and hashing.
//! Each rule says what one pass over the catalog finds for a variant.

use std::collections::HashMap;
use vstd::prelude::*;
use crate::core_qualification_dto::{
    attributes,
    verdicts_of,
    EvaluationResult,
    QualificationResult,
    QualificationResultType,
    Verdict,
};
use crate::ep_dto::{
    catalog,
    spectrum_owns,
    Experiment,
    ExperimentView,
    Traffic,
    VariantRuleView,
    VariantView,
};
use crate::expression::{evaluate, evaluation};
use crate::hasher::{bucket_index, bucket_of};
use crate::string_map::StringMap;
use crate::survey::{Decider, Rule};
use crate::text::{holds_text, texts};

verus! {

broadcast use vstd::std_specs::hash::group_hash_axioms;

/// The name under which the opt-in mapper keeps its snapshot.
pub const OPT_IN_MAPPER: &'static str = "OptInMapper";

/// The name under which the list mapper keeps its snapshot.
pub const UID_LIST_MAPPER: &'static str = "UidListMapper";

/// The name under which the rule mapper keeps its snapshot.
pub const VARIANT_RULE_MAPPER: &'static str = "VariantRuleMapper";

/// The name under which the variant mapper keeps its snapshot.
pub const VARIANT_MAPPER: &'static str = "VariantMapper";

/// The attribute that names the caller where the randomization unit is
/// something else.
pub const UID_KEY: &'static str = "UID";

// The reasons that the mappers give for their verdicts.

pub const REASON_OPTED_IN: &'static str = "the caller opted in";

pub const REASON_LISTED: &'static str = "the unit is on the variant's list";

pub const REASON_RULE_OVERRIDE: &'static str = "a rule gives the variant its spectrum";

pub const REASON_BASE_SPECTRUM: &'static str = "the variant keeps its own spectrum";

pub const REASON_MALFORMED_RULE: &'static str = "a rule's expression is malformed";

pub const REASON_MALFORMED_GATE: &'static str = "the experiment's expression is malformed";

pub const REASON_NOT_ELIGIBLE: &'static str = "the experiment's expression does not hold";

pub const REASON_NO_UNIT: &'static str = "the randomization unit is missing";

pub const REASON_BUCKET_OWNER: &'static str = "the variant owns the unit's bucket";

pub const REASON_AMBIGUOUS: &'static str = "several variants own the unit's bucket";

pub const REASON_HELD_BACK: &'static str = "the unit's bucket is not yet in the experiment";

pub const REASON_OTHER_BUCKET: &'static str = "the variant does not own the unit's bucket";

pub const REASON_SHARED_ID: &'static str = "the variant's id occurs more than once in the catalog";

pub const REASON_SIBLING_FORCED: &'static str = "the unit is assigned to another variant";

/// The verdict `kind`, for the reason `reason`.
pub open spec fn verdict(kind: QualificationResultType, reason: &str) -> Verdict {
    Verdict { kind, reason: reason@ }
}

/// The opt-in rule: a variant whose display id the caller named is qualified.
pub open spec fn opt_in_rule(opt_ins: Seq<Seq<char>>) -> Rule {
    |e: ExperimentView, i: int|
        if opt_ins.contains(e.variants[i].variant_display_id) {
            Some(verdict(QualificationResultType::Qualified, REASON_OPTED_IN))
        } else {
            None
        }
}

/// Whether the list of variant `i` holds the unit: the value of the
/// experiment's randomization key, or the value of `UID_KEY`.
pub open spec fn listed(e: ExperimentView, i: int, attrs: Map<Seq<char>, Seq<char>>) -> bool {
    let uids = e.variants[i].whitelisted_uids;
    ||| attrs.contains_key(e.randomization_unit_key) && uids.contains(
        attrs[e.randomization_unit_key],
    )
    ||| attrs.contains_key(UID_KEY@) && uids.contains(attrs[UID_KEY@])
}

/// The list rule: a variant whose list holds the unit is qualified.
pub open spec fn uid_list_rule(attrs: Map<Seq<char>, Seq<char>>) -> Rule {
    |e: ExperimentView, i: int|
        if listed(e, i, attrs) {
            Some(verdict(QualificationResultType::Qualified, REASON_LISTED))
        } else {
            None
        }
}

/// Which spectra are in effect for an experiment.
#[derive(Clone, Copy, Debug, PartialEq, Eq, Structural)]
pub enum RuleChoice {
    /// No rule holds: every variant keeps its own spectrum.
    Base,
    /// The rule at this place holds, and no rule before it.
    Rule(usize),
    /// A rule's expression is malformed, and no rule before it holds.
    Malformed,
}

/// The choice among the rules from place `from` on: the first rule whose
/// expression holds.
pub open spec fn select_rule(
    rules: Seq<VariantRuleView>,
    attrs: Map<Seq<char>, Seq<char>>,
    from: int,
) -> RuleChoice
    decreases rules.len() - from,
{
    if from < 0 || from >= rules.len() {
        RuleChoice::Base
    } else {
        match evaluation(rules[from].context_expression, attrs) {
            None => RuleChoice::Malformed,
            Some(true) => RuleChoice::Rule(from as usize),
            Some(false) => select_rule(rules, attrs, from + 1),
        }
    }
}

/// Whether the chosen rule lists variant `i`.
pub open spec fn overridden(e: ExperimentView, choice: RuleChoice, i: int) -> bool {
    choice matches RuleChoice::Rule(r) && e.variant_rules[r as int].target.contains_key(
        e.variants[i].variant_id,
    )
}

/// The rule of the rule mapper: which spectrum each variant goes on with.
pub open spec fn variant_rule_rule(attrs: Map<Seq<char>, Seq<char>>) -> Rule {
    |e: ExperimentView, i: int|
        {
            let choice = select_rule(e.variant_rules, attrs, 0);
            if choice is Malformed {
                Some(verdict(QualificationResultType::Error, REASON_MALFORMED_RULE))
            } else if overridden(e, choice, i) {
                Some(verdict(QualificationResultType::Deferred, REASON_RULE_OVERRIDE))
            } else {
                Some(verdict(QualificationResultType::Deferred, REASON_BASE_SPECTRUM))
            }
        }
}

/// The spectrum that the chosen rule lists for variant `i`.
pub open spec fn listed_spectrum(e: ExperimentView, choice: RuleChoice, i: int) -> Seq<char>
    recommends
        overridden(e, choice, i),
{
    e.variant_rules[choice->0 as int].target[e.variants[i].variant_id]
}

/// Whether variant `i` owns `bucket` under the spectra in effect: by the
/// spectrum that the chosen rule lists for it, or else by its own spectrum
/// within the experiment's.
pub open spec fn claims(e: ExperimentView, choice: RuleChoice, bucket: int, i: int) -> bool {
    if overridden(e, choice, i) {
        spectrum_owns(listed_spectrum(e, choice, i), bucket)
    } else {
        spectrum_owns(e.base_mod, bucket) && spectrum_owns(e.variants[i].variant_mod, bucket)
    }
}

/// Whether two variants own `bucket`.
pub open spec fn contested(e: ExperimentView, choice: RuleChoice, bucket: int) -> bool {
    exists|a: int, b: int|
        0 <= a < b < e.variants.len() && #[trigger] claims(e, choice, bucket, a)
            && #[trigger] claims(e, choice, bucket, b)
}

/// The verdict on variant `i` for a unit in `bucket`.
pub open spec fn bucket_verdict(
    e: ExperimentView,
    choice: RuleChoice,
    bucket: int,
    i: int,
) -> Verdict {
    if claims(e, choice, bucket, i) {
        if contested(e, choice, bucket) {
            verdict(QualificationResultType::Error, REASON_AMBIGUOUS)
        } else {
            verdict(QualificationResultType::Qualified, REASON_BUCKET_OWNER)
        }
    } else if !overridden(e, choice, i) && !spectrum_owns(e.base_mod, bucket) {
        verdict(QualificationResultType::Deferred, REASON_HELD_BACK)
    } else {
        verdict(QualificationResultType::NotQualified, REASON_OTHER_BUCKET)
    }
}

/// The verdict on variant `i` by eligibility and hashing.
pub open spec fn hashed_verdict(
    e: ExperimentView,
    attrs: Map<Seq<char>, Seq<char>>,
    i: int,
) -> Verdict {
    match evaluation(e.context_expression, attrs) {
        None => verdict(QualificationResultType::Error, REASON_MALFORMED_GATE),
        Some(false) => verdict(QualificationResultType::NotQualified, REASON_NOT_ELIGIBLE),
        Some(true) => {
            let choice = select_rule(e.variant_rules, attrs, 0);
            if choice is Malformed {
                verdict(QualificationResultType::Error, REASON_MALFORMED_RULE)
            } else if !attrs.contains_key(e.randomization_unit_key) {
                verdict(QualificationResultType::Error, REASON_NO_UNIT)
            } else {
                bucket_verdict(
                    e,
                    choice,
                    bucket_of(
                        attrs[e.randomization_unit_key],
                        e.hashing_constant,
                        e.experiment_id,
                    ),
                    i,
                )
            }
        },
    }
}

/// Whether one of the two forcing mappers left a verdict for the variant id.
pub open spec fn is_forced(id: i32, opted: Map<i32, Verdict>, on_list: Map<i32, Verdict>) -> bool {
    opted.contains_key(id) || on_list.contains_key(id)
}

/// Whether the unit is assigned to some variant of `e` without hashing.
pub open spec fn unit_forced(
    e: ExperimentView,
    opted: Map<i32, Verdict>,
    on_list: Map<i32, Verdict>,
) -> bool {
    exists|j: int|
        0 <= j < e.variants.len() && is_forced(#[trigger] e.variants[j].variant_id, opted, on_list)
}

/// How many of the first `n` variants have the id `id`.
pub open spec fn count_in(variants: Seq<VariantView>, id: i32, n: int) -> nat
    decreases n,
{
    if n <= 0 {
        0
    } else {
        count_in(variants, id, n - 1) + if variants[n - 1].variant_id == id {
            1nat
        } else {
            0nat
        }
    }
}

/// How many variants of the first `n` experiments have the id `id`.
pub open spec fn count_to(experiments: Seq<ExperimentView>, id: i32, n: int) -> nat
    decreases n,
{
    if n <= 0 {
        0
    } else {
        count_to(experiments, id, n - 1) + count_in(
            experiments[n - 1].variants,
            id,
            experiments[n - 1].variants.len() as int,
        )
    }
}

/// Whether more than one variant of the catalog has the id `id`. The
/// verdicts are kept by variant id, so such variants cannot be told apart.
pub open spec fn shared_id(experiments: Seq<ExperimentView>, id: i32) -> bool {
    count_to(experiments, id, experiments.len() as int) > 1
}

/// A count as the tally keeps it: exact up to 2, and 2 beyond.
pub open spec fn capped(n: nat) -> u8 {
    if n >= 2 {
        2
    } else {
        n as u8
    }
}

/// What a tally holds for an id: nothing is none.
pub open spec fn tally_of(counts: Map<i32, u8>, id: i32) -> u8 {
    if counts.contains_key(id) {
        counts[id]
    } else {
        0
    }
}

/// Whether a tally counts the variant ids of the catalog.
pub open spec fn tallies(counts: Map<i32, u8>, experiments: Seq<ExperimentView>) -> bool {
    forall|id: i32| #[trigger]
        tally_of(counts, id) == capped(count_to(experiments, id, experiments.len() as int))
}

/// The rule of the variant mapper. A variant that was forced is left alone.
/// A variant whose id another variant of the catalog has is in error. The
/// siblings of a forced variant are not qualified. Every other variant is
/// decided by eligibility and hashing.
pub open spec fn variant_rule(
    experiments: Seq<ExperimentView>,
    attrs: Map<Seq<char>, Seq<char>>,
    opted: Map<i32, Verdict>,
    on_list: Map<i32, Verdict>,
) -> Rule {
    |e: ExperimentView, i: int|
        if is_forced(e.variants[i].variant_id, opted, on_list) {
            None
        } else if shared_id(experiments, e.variants[i].variant_id) {
            Some(verdict(QualificationResultType::Error, REASON_SHARED_ID))
        } else if unit_forced(e, opted, on_list) {
            Some(verdict(QualificationResultType::NotQualified, REASON_SIBLING_FORCED))
        } else {
            Some(hashed_verdict(e, attrs, i))
        }
}

/// Runs the opt-in rule.
pub struct OptInDecider<'a> {
    pub opt_ins: &'a Vec<String>,
}

impl<'a> Decider for OptInDecider<'a> {
    type Plan = ();

    open spec fn rule(&self) -> Rule {
        opt_in_rule(texts(self.opt_ins@))
    }

    open spec fn ready(&self) -> bool {
        true
    }

    open spec fn plan_fits(&self, plan: &(), e: ExperimentView) -> bool {
        true
    }

    fn plan(&self, e: &Experiment) -> (p: ()) {
    }

    fn decide(&self, e: &Experiment, plan: &(), i: usize) -> (r: Option<QualificationResult>) {
        if holds_text(self.opt_ins, e.variants[i].variant_display_id.as_str()) {
            Some(QualificationResult::new(QualificationResultType::Qualified, REASON_OPTED_IN))
        } else {
            None
        }
    }
}

/// Runs the list rule.
pub struct UidListDecider<'a> {
    pub attrs: &'a StringMap<String>,
}

impl<'a> Decider for UidListDecider<'a> {
    type Plan = ();

    open spec fn rule(&self) -> Rule {
        uid_list_rule(attributes(self.attrs@))
    }

    open spec fn ready(&self) -> bool {
        true
    }

    open spec fn plan_fits(&self, plan: &(), e: ExperimentView) -> bool {
        true
    }

    fn plan(&self, e: &Experiment) -> (p: ()) {
    }

    fn decide(&self, e: &Experiment, plan: &(), i: usize) -> (r: Option<QualificationResult>) {
        let uids = &e.variants[i].whitelisted_uids;
        let by_key = match self.attrs.get(e.randomization_unit_key.as_str()) {
            Some(unit) => {
                holds_text(uids, unit.as_str())
            },
            None => false,
        };
        let by_uid = match self.attrs.get(UID_KEY) {
            Some(unit) => {
                holds_text(uids, unit.as_str())
            },
            None => false,
        };
        if by_key || by_uid {
            Some(QualificationResult::new(QualificationResultType::Qualified, REASON_LISTED))
        } else {
            None
        }
    }
}

/// The choice among the rules of `e`.
pub fn choose_rule(e: &Experiment, attrs: &StringMap<String>) -> (choice: RuleChoice)
    ensures
        choice == select_rule(e@.variant_rules, attributes(attrs@), 0),
        choice matches RuleChoice::Rule(r) ==> r < e.variant_rules.len(),
{
    let mut i: usize = 0;
    while i < e.variant_rules.len()
        invariant
            i <= e.variant_rules.len(),
            e@.variant_rules.len() == e.variant_rules.len(),
            select_rule(e@.variant_rules, attributes(attrs@), 0) == select_rule(
                e@.variant_rules,
                attributes(attrs@),
                i as int,
            ),
        decreases e.variant_rules.len() - i,
    {
        match evaluate(e.variant_rules[i].context_expression.as_str(), attrs) {
            None => {
                return RuleChoice::Malformed;
            },
            Some(true) => {
                return RuleChoice::Rule(i);
            },
            Some(false) => {},
        }
        i = i + 1;
    }
    RuleChoice::Base
}

/// The spectrum that the chosen rule lists for variant `i`, if it lists one.
fn override_for<'a>(e: &'a Experiment, choice: RuleChoice, i: usize) -> (r: Option<&'a Traffic>)
    requires
        i < e.variants.len(),
        choice matches RuleChoice::Rule(r) ==> r < e.variant_rules.len(),
    ensures
        match r {
            Some(t) => overridden(e@, choice, i as int) && t@ == listed_spectrum(
                e@,
                choice,
                i as int,
            ),
            None => !overridden(e@, choice, i as int),
        },
{
    match choice {
        RuleChoice::Rule(r) => {
            e.variant_rules[r].target.spectrum_for(e.variants[i].variant_id)
        },
        _ => None,
    }
}

/// Runs the rule of the rule mapper.
pub struct VariantRuleDecider<'a> {
    pub attrs: &'a StringMap<String>,
}

impl<'a> Decider for VariantRuleDecider<'a> {
    type Plan = RuleChoice;

    open spec fn rule(&self) -> Rule {
        variant_rule_rule(attributes(self.attrs@))
    }

    open spec fn ready(&self) -> bool {
        true
    }

    open spec fn plan_fits(&self, plan: &RuleChoice, e: ExperimentView) -> bool {
        &&& *plan == select_rule(e.variant_rules, attributes(self.attrs@), 0)
        &&& *plan matches RuleChoice::Rule(r) ==> r < e.variant_rules.len()
    }

    fn plan(&self, e: &Experiment) -> (p: RuleChoice) {
        choose_rule(e, self.attrs)
    }

    fn decide(&self, e: &Experiment, plan: &RuleChoice, i: usize) -> (r: Option<
        QualificationResult,
    >) {
        match *plan {
            RuleChoice::Malformed => Some(
                QualificationResult::new(QualificationResultType::Error, REASON_MALFORMED_RULE),
            ),
            _ => {
                if override_for(e, *plan, i).is_some() {
                    Some(
                        QualificationResult::new(
                            QualificationResultType::Deferred,
                            REASON_RULE_OVERRIDE,
                        ),
                    )
                } else {
                    Some(
                        QualificationResult::new(
                            QualificationResultType::Deferred,
                            REASON_BASE_SPECTRUM,
                        ),
                    )
                }
            },
        }
    }
}

/// Whether variant `i` owns `bucket` under the spectra in effect.
fn variant_claims(e: &Experiment, choice: RuleChoice, bucket: usize, i: usize) -> (r: bool)
    requires
        i < e.variants.len(),
        choice matches RuleChoice::Rule(r) ==> r < e.variant_rules.len(),
    ensures
        r == claims(e@, choice, bucket as int, i as int),
{
    match override_for(e, choice, i) {
        Some(spectrum) => spectrum.owns(bucket),
        None => e.base_mod.owns(bucket) && e.variants[i].variant_mod.owns(bucket),
    }
}

/// Whether two variants own `bucket`.
fn is_contested(e: &Experiment, choice: RuleChoice, bucket: usize) -> (r: bool)
    requires
        choice matches RuleChoice::Rule(r) ==> r < e.variant_rules.len(),
    ensures
        r == contested(e@, choice, bucket as int),
{
    let mut found: bool = false;
    let mut i: usize = 0;
    while i < e.variants.len()
        invariant
            i <= e.variants.len(),
            e@.variants.len() == e.variants.len(),
            choice matches RuleChoice::Rule(r) ==> r < e.variant_rules.len(),
            found == exists|a: int| 0 <= a < i && #[trigger] claims(e@, choice, bucket as int, a),
            forall|a: int, b: int|
                0 <= a < b < i ==> !(#[trigger] claims(e@, choice, bucket as int, a)
                    && #[trigger] claims(e@, choice, bucket as int, b)),
        decreases e.variants.len() - i,
    {
        if variant_claims(e, choice, bucket, i) {
            if found {
                proof {
                    let a = choose|a: int|
                        0 <= a < i && #[trigger] claims(e@, choice, bucket as int, a);
                }
                return true;
            }
            found = true;
        }
        i = i + 1;
    }
    false
}

/// What the variant mapper finds out about an experiment before it turns to
/// the variants.
pub enum HashPlan {
    /// The unit is assigned to a variant of the experiment without hashing.
    Forced,
    /// Every variant gets this verdict.
    Uniform { kind: QualificationResultType, reason: &'static str },
    /// The unit falls into `bucket`, under the spectra of `choice`.
    Bucket { choice: RuleChoice, bucket: usize, contested: bool },
}

/// For every variant id of the catalog, how many variants have it, up to 2.
pub fn count_ids(experiments: &Vec<Experiment>) -> (counts: HashMap<i32, u8>)
    ensures
        tallies(counts@, catalog(experiments@)),
{
    let mut counts: HashMap<i32, u8> = HashMap::new();
    let mut k: usize = 0;
    while k < experiments.len()
        invariant
            k <= experiments.len(),
            forall|id: i32| #[trigger]
                tally_of(counts@, id) == capped(count_to(catalog(experiments@), id, k as int)),
        decreases experiments.len() - k,
    {
        let e = &experiments[k];
        assert(catalog(experiments@)[k as int] == e@);
        let mut i: usize = 0;
        while i < e.variants.len()
            invariant
                i <= e.variants.len(),
                e@.variants.len() == e.variants.len(),
                forall|id: i32| #[trigger]
                    tally_of(counts@, id) == capped(
                        count_to(catalog(experiments@), id, k as int) + count_in(
                            e@.variants,
                            id,
                            i as int,
                        ),
                    ),
            decreases e.variants.len() - i,
        {
            assert(e@.variants[i as int] == e.variants[i as int]@);
            let id = e.variants[i].variant_id;
            let seen: u8 = match counts.get(&id) {
                Some(n) => *n,
                None => 0,
            };
            assert(seen == tally_of(counts@, id));
            let ghost before = counts@;
            counts.insert(
                id,
                if seen >= 2 {
                    2
                } else {
                    seen + 1
                },
            );
            assert forall|other: i32| #[trigger]
                tally_of(counts@, other) == capped(
                    count_to(catalog(experiments@), other, k as int) + count_in(
                        e@.variants,
                        other,
                        i + 1,
                    ),
                ) by {
                assert(tally_of(before, other) == capped(
                    count_to(catalog(experiments@), other, k as int) + count_in(
                        e@.variants,
                        other,
                        i as int,
                    ),
                ));
            }
            i = i + 1;
        }
        k = k + 1;
    }
    counts
}

/// Runs the rule of the variant mapper.
pub struct VariantDecider<'a> {
    pub experiments: &'a Vec<Experiment>,
    pub counts: HashMap<i32, u8>,
    pub attrs: &'a StringMap<String>,
    pub opted: Option<&'a EvaluationResult>,
    pub on_list: Option<&'a EvaluationResult>,
}

impl<'a> VariantDecider<'a> {
    fn forced(&self, id: i32) -> (r: bool)
        ensures
            r == is_forced(id, verdicts_of(self.opted), verdicts_of(self.on_list)),
    {
        let opted = match self.opted {
            Some(snapshot) => snapshot.get(id).is_some(),
            None => false,
        };
        let on_list = match self.on_list {
            Some(snapshot) => snapshot.get(id).is_some(),
            None => false,
        };
        opted || on_list
    }

    fn any_forced(&self, e: &Experiment) -> (r: bool)
        ensures
            r == unit_forced(e@, verdicts_of(self.opted), verdicts_of(self.on_list)),
    {
        let mut i: usize = 0;
        while i < e.variants.len()
            invariant
                i <= e.variants.len(),
                e@.variants.len() == e.variants.len(),
                forall|j: int|
                    0 <= j < i ==> !is_forced(
                        #[trigger] e@.variants[j].variant_id,
                        verdicts_of(self.opted),
                        verdicts_of(self.on_list),
                    ),
            decreases e.variants.len() - i,
        {
            if self.forced(e.variants[i].variant_id) {
                assert(is_forced(
                    e@.variants[i as int].variant_id,
                    verdicts_of(self.opted),
                    verdicts_of(self.on_list),
                ));
                return true;
            }
            i = i + 1;
        }
        false
    }
}

impl<'a> Decider for VariantDecider<'a> {
    type Plan = HashPlan;

    open spec fn rule(&self) -> Rule {
        variant_rule(
            catalog(self.experiments@),
            attributes(self.attrs@),
            verdicts_of(self.opted),
            verdicts_of(self.on_list),
        )
    }

    open spec fn ready(&self) -> bool {
        tallies(self.counts@, catalog(self.experiments@))
    }

    open spec fn plan_fits(&self, plan: &HashPlan, e: ExperimentView) -> bool {
        let attrs = attributes(self.attrs@);
        let forced = unit_forced(e, verdicts_of(self.opted), verdicts_of(self.on_list));
        match *plan {
            HashPlan::Forced => forced,
            HashPlan::Uniform { kind, reason } => !forced && forall|i: int| #[trigger]
                hashed_verdict(e, attrs, i) == verdict(kind, reason),
            HashPlan::Bucket { choice, bucket, contested: disputed } => {
                &&& !forced
                &&& choice matches RuleChoice::Rule(r) ==> r < e.variant_rules.len()
                &&& disputed == contested(e, choice, bucket as int)
                &&& forall|i: int| #[trigger]
                    hashed_verdict(e, attrs, i) == bucket_verdict(e, choice, bucket as int, i)
            },
        }
    }

    fn plan(&self, e: &Experiment) -> (p: HashPlan) {
        if self.any_forced(e) {
            return HashPlan::Forced;
        }
        match evaluate(e.context_expression.as_str(), self.attrs) {
            None => HashPlan::Uniform {
                kind: QualificationResultType::Error,
                reason: REASON_MALFORMED_GATE,
            },
            Some(false) => HashPlan::Uniform {
                kind: QualificationResultType::NotQualified,
                reason: REASON_NOT_ELIGIBLE,
            },
            Some(true) => {
                let choice = choose_rule(e, self.attrs);
                match choice {
                    RuleChoice::Malformed => HashPlan::Uniform {
                        kind: QualificationResultType::Error,
                        reason: REASON_MALFORMED_RULE,
                    },
                    _ => match self.attrs.get(e.randomization_unit_key.as_str()) {
                        None => HashPlan::Uniform {
                            kind: QualificationResultType::Error,
                            reason: REASON_NO_UNIT,
                        },
                        Some(unit) => {
                            let bucket = bucket_index(
                                unit.as_str(),
                                e.hashing_constant.as_str(),
                                e.experiment_id,
                            );
                            let disputed = is_contested(e, choice, bucket);
                            HashPlan::Bucket { choice, bucket, contested: disputed }
                        },
                    },
                }
            },
        }
    }

    fn decide(&self, e: &Experiment, plan: &HashPlan, i: usize) -> (r: Option<
        QualificationResult,
    >) {
        let id = e.variants[i].variant_id;
        if self.forced(id) {
            return None;
        }
        let times: u8 = match self.counts.get(&id) {
            Some(n) => *n,
            None => 0,
        };
        assert(times == tally_of(self.counts@, id));
        if times >= 2 {
            return Some(QualificationResult::new(QualificationResultType::Error, REASON_SHARED_ID));
        }
        match plan {
            HashPlan::Forced => Some(
                QualificationResult::new(
                    QualificationResultType::NotQualified,
                    REASON_SIBLING_FORCED,
                ),
            ),
            HashPlan::Uniform { kind, reason } => {
                Some(QualificationResult::new(*kind, *reason))
            },
            HashPlan::Bucket { choice, bucket, contested: disputed } => {
                if variant_claims(e, *choice, *bucket, i) {
                    if *disputed {
                        Some(
                            QualificationResult::new(
                                QualificationResultType::Error,
                                REASON_AMBIGUOUS,
                            ),
                        )
                    } else {
                        Some(
                            QualificationResult::new(
                                QualificationResultType::Qualified,
                                REASON_BUCKET_OWNER,
                            ),
                        )
                    }
                } else if override_for(e, *choice, i).is_none() && !e.base_mod.owns(*bucket) {
                    Some(
                        QualificationResult::new(
                            QualificationResultType::Deferred,
                            REASON_HELD_BACK,
                        ),
                    )
                } else {
                    Some(
                        QualificationResult::new(
                            QualificationResultType::NotQualified,
                            REASON_OTHER_BUCKET,
                        ),
                    )
                }
            },
        }
    }
}

} // verus!

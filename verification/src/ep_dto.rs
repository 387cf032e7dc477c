//! The experiment catalog: experiments, their variants, their rules and the
//! traffic spectra that tie a hash bucket to a variant.

use std::collections::HashMap;
use vstd::prelude::*;
use crate::text::{chars_of, texts};

verus! {

broadcast use vstd::std_specs::hash::group_hash_axioms;

/// Prefix of every salt that a randomization unit is hashed with.
pub const BASE_HASHING_CONSTANT: &'static str = "EXPT";

/// Number of buckets that the hash space is cut into.
pub const SPECTRUM_WIDTH: u64 = 104;

/// Whether the spectrum written as `spectrum` owns `bucket`: the symbol at
/// that place is `1`. A spectrum owns no bucket beyond its end.
pub open spec fn spectrum_owns(spectrum: Seq<char>, bucket: int) -> bool {
    0 <= bucket < spectrum.len() && spectrum[bucket] == '1'
}

/// A traffic spectrum: one binary symbol per bucket.
#[derive(Debug, PartialEq)]
pub struct Traffic {
    pub spectrum: String,
}

impl View for Traffic {
    type V = Seq<char>;

    open spec fn view(&self) -> Seq<char> {
        self.spectrum@
    }
}

impl Traffic {
    /// Whether this spectrum owns `bucket`.
    pub fn owns(&self, bucket: usize) -> (r: bool)
        ensures
            r == spectrum_owns(self@, bucket as int),
    {
        let symbols = chars_of(self.spectrum.as_str());
        bucket < symbols.len() && symbols[bucket] == '1'
    }
}

/// The spectra that a rule gives to the variants it lists, by variant id.
#[derive(Debug, PartialEq)]
pub struct Target {
    pub variant_mod_map: HashMap<i32, Traffic>,
}

impl View for Target {
    type V = Map<i32, Seq<char>>;

    open spec fn view(&self) -> Map<i32, Seq<char>> {
        self.variant_mod_map@.map_values(|t: Traffic| t@)
    }
}

impl Target {
    /// The spectrum listed for `variant_id`, if one is.
    pub fn spectrum_for(&self, variant_id: i32) -> (r: Option<&Traffic>)
        ensures
            match r {
                Some(t) => self@.contains_key(variant_id) && self@[variant_id] == t@,
                None => !self@.contains_key(variant_id),
            },
    {
        self.variant_mod_map.get(&variant_id)
    }
}

/// What the rules read of a `VariantRule`.
pub struct VariantRuleView {
    pub rule_id: i32,
    pub context_expression: Seq<char>,
    pub target: Map<i32, Seq<char>>,
}

/// A named override: where its expression holds, its target replaces the
/// spectra of the variants it lists.
#[derive(Debug, PartialEq)]
pub struct VariantRule {
    pub rule_id: i32,
    pub context_expression: String,
    pub target: Target,
}

impl View for VariantRule {
    type V = VariantRuleView;

    open spec fn view(&self) -> VariantRuleView {
        VariantRuleView {
            rule_id: self.rule_id,
            context_expression: self.context_expression@,
            target: self.target@,
        }
    }
}

/// What the rules read of a `Variant`.
pub struct VariantView {
    pub name: Seq<char>,
    pub value: Seq<char>,
    pub variant_id: i32,
    pub variant_display_id: Seq<char>,
    pub variant_flags: i32,
    pub variant_mod: Seq<char>,
    pub whitelisted_uids: Seq<Seq<char>>,
}

/// One outcome of an experiment.
#[derive(Debug, PartialEq)]
pub struct Variant {
    pub name: String,
    pub value: String,
    pub variant_id: i32,
    pub variant_display_id: String,
    pub variant_flags: i32,
    pub variant_mod: Traffic,
    pub whitelisted_uids: Vec<String>,
}

impl View for Variant {
    type V = VariantView;

    open spec fn view(&self) -> VariantView {
        VariantView {
            name: self.name@,
            value: self.value@,
            variant_id: self.variant_id,
            variant_display_id: self.variant_display_id@,
            variant_flags: self.variant_flags,
            variant_mod: self.variant_mod@,
            whitelisted_uids: texts(self.whitelisted_uids@),
        }
    }
}

/// What the rules read of an `Experiment`.
pub struct ExperimentView {
    pub name: Seq<char>,
    pub context_expression: Seq<char>,
    pub hashing_constant: Seq<char>,
    pub experiment_id: i32,
    pub experiment_flags: i32,
    pub variant_rules: Seq<VariantRuleView>,
    pub variants: Seq<VariantView>,
    pub base_mod: Seq<char>,
    pub randomization_unit_key: Seq<char>,
}

/// A named, versioned targeting unit.
#[derive(Debug, PartialEq)]
pub struct Experiment {
    pub name: String,
    pub context_expression: String,
    pub hashing_constant: String,
    pub experiment_id: i32,
    pub experiment_flags: i32,
    pub variant_rules: Vec<VariantRule>,
    pub variants: Vec<Variant>,
    pub base_mod: Traffic,
    pub randomization_unit_key: String,
}

impl View for Experiment {
    type V = ExperimentView;

    open spec fn view(&self) -> ExperimentView {
        ExperimentView {
            name: self.name@,
            context_expression: self.context_expression@,
            hashing_constant: self.hashing_constant@,
            experiment_id: self.experiment_id,
            experiment_flags: self.experiment_flags,
            variant_rules: self.variant_rules@.map_values(|r: VariantRule| r@),
            variants: self.variants@.map_values(|v: Variant| v@),
            base_mod: self.base_mod@,
            randomization_unit_key: self.randomization_unit_key@,
        }
    }
}

/// The views of a catalog.
pub open spec fn catalog(experiments: Seq<Experiment>) -> Seq<ExperimentView> {
    experiments.map_values(|e: Experiment| e@)
}

} // verus!

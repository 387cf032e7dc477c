//! The unit of work of one evaluation, and the outcomes it collects.

use std::collections::HashMap;
use vstd::prelude::*;
use vstd::string::StringExecFns;
use crate::ep_dto::{catalog, Experiment, ExperimentView};
use crate::string_map::StringMap;
use crate::text::texts;

verus! {

broadcast use vstd::std_specs::hash::group_hash_axioms;

/// How the qualification of one variant ended.
#[derive(Debug, PartialEq, Eq, Clone, Copy, Structural)]
pub enum QualificationResultType {
    /// Passed this stage; a later stage decides.
    Deferred,
    /// The variant applies to the caller.
    Qualified,
    /// The variant does not apply to the caller.
    NotQualified,
    /// The variant could not be decided; the reason says why.
    Error,
}

/// The view of a `QualificationResult`.
pub struct Verdict {
    pub kind: QualificationResultType,
    pub reason: Seq<char>,
}

/// The outcome for one variant, with the reason for it.
#[derive(Debug, PartialEq, Clone)]
pub struct QualificationResult {
    pub qualification_result_type: QualificationResultType,
    pub qualification_result_reason: String,
}

impl View for QualificationResult {
    type V = Verdict;

    open spec fn view(&self) -> Verdict {
        Verdict {
            kind: self.qualification_result_type,
            reason: self.qualification_result_reason@,
        }
    }
}

impl QualificationResult {
    /// The outcome `kind`, for the reason `reason`.
    pub fn new(kind: QualificationResultType, reason: &str) -> (r: Self)
        ensures
            r@ == (Verdict { kind, reason: reason@ }),
    {
        QualificationResult {
            qualification_result_type: kind,
            qualification_result_reason: String::from_str(reason),
        }
    }

    /// A copy of this outcome.
    pub fn duplicate(&self) -> (r: Self)
        ensures
            r@ == self@,
    {
        QualificationResult {
            qualification_result_type: self.qualification_result_type,
            qualification_result_reason: self.qualification_result_reason.clone(),
        }
    }
}

/// Outcomes by variant id.
#[derive(Debug, PartialEq)]
pub struct EvaluationResult {
    pub variant_result_map: HashMap<i32, QualificationResult>,
}

impl View for EvaluationResult {
    type V = Map<i32, Verdict>;

    open spec fn view(&self) -> Map<i32, Verdict> {
        self.variant_result_map@.map_values(|r: QualificationResult| r@)
    }
}

impl EvaluationResult {
    /// No outcome yet.
    pub fn new() -> (r: Self)
        ensures
            r@ == Map::<i32, Verdict>::empty(),
    {
        EvaluationResult { variant_result_map: HashMap::new() }
    }

    /// The number of variants that have an outcome.
    pub fn len(&self) -> (n: usize)
        ensures
            n == self@.len(),
    {
        assert(self@.dom() =~= self.variant_result_map@.dom());
        self.variant_result_map.len()
    }

    /// The outcome recorded for `variant_id`, if one is.
    pub fn get(&self, variant_id: i32) -> (r: Option<&QualificationResult>)
        ensures
            match r {
                Some(q) => self@.contains_key(variant_id) && self@[variant_id] == q@,
                None => !self@.contains_key(variant_id),
            },
    {
        self.variant_result_map.get(&variant_id)
    }

    /// The kind of the outcome recorded for `variant_id`, if one is.
    pub fn kind_of(&self, variant_id: i32) -> (r: Option<QualificationResultType>)
        ensures
            r == (if self@.contains_key(variant_id) {
                Some(self@[variant_id].kind)
            } else {
                None
            }),
    {
        match self.get(variant_id) {
            Some(q) => Some(q.qualification_result_type),
            None => None,
        }
    }

    /// Records `outcome` for `variant_id`, in place of an earlier outcome.
    pub fn record(&mut self, variant_id: i32, outcome: QualificationResult)
        ensures
            final(self)@ == old(self)@.insert(variant_id, outcome@),
    {
        self.variant_result_map.insert(variant_id, outcome);
    }

    /// A copy of these outcomes.
    pub fn snapshot(&self) -> (r: Self)
        ensures
            r@ == self@,
    {
        EvaluationResult { variant_result_map: self.variant_result_map.clone() }
    }
}

/// The views of the snapshots in a map of snapshots.
pub open spec fn snapshots(m: Map<Seq<char>, EvaluationResult>) -> Map<
    Seq<char>,
    Map<i32, Verdict>,
> {
    m.map_values(|r: EvaluationResult| r@)
}

/// The views of the values of an attribute map.
pub open spec fn attributes(m: Map<Seq<char>, String>) -> Map<Seq<char>, Seq<char>> {
    m.map_values(|s: String| s@)
}

/// The view of an `EvaluationContext`.
pub struct ContextView {
    pub experiment_list: Seq<ExperimentView>,
    pub context_map: Map<Seq<char>, Seq<char>>,
    pub opt_in_variant_display_ids: Seq<Seq<char>>,
    pub error_code: i32,
    pub error_message: Seq<char>,
    pub result_by_mapper: Map<Seq<char>, Map<i32, Verdict>>,
    pub result_by_phase: Map<Seq<char>, Map<i32, Verdict>>,
    pub result: Map<i32, Verdict>,
}

/// The unit of work of one evaluation: what the caller supplies, and what the
/// phases leave behind.
#[derive(Debug, PartialEq)]
pub struct EvaluationContext {
    // Intake
    pub experiment_list: Vec<Experiment>,
    pub context_map: StringMap<String>,
    pub opt_in_variant_display_ids: Vec<String>,
    // Output
    pub error_code: i32,
    pub error_message: String,
    pub result_by_mapper: StringMap<EvaluationResult>,
    pub result_by_phase: StringMap<EvaluationResult>,
    pub result: EvaluationResult,
}

impl View for EvaluationContext {
    type V = ContextView;

    open spec fn view(&self) -> ContextView {
        ContextView {
            experiment_list: catalog(self.experiment_list@),
            context_map: attributes(self.context_map@),
            opt_in_variant_display_ids: texts(self.opt_in_variant_display_ids@),
            error_code: self.error_code,
            error_message: self.error_message@,
            result_by_mapper: snapshots(self.result_by_mapper@),
            result_by_phase: snapshots(self.result_by_phase@),
            result: self.result@,
        }
    }
}

/// The snapshot kept under `name`; no verdict at all where none is kept.
pub open spec fn recorded(m: Map<Seq<char>, Map<i32, Verdict>>, name: Seq<char>) -> Map<
    i32,
    Verdict,
> {
    if m.contains_key(name) {
        m[name]
    } else {
        Map::empty()
    }
}

/// The verdicts of a snapshot that may be absent.
pub open spec fn verdicts_of(r: Option<&EvaluationResult>) -> Map<i32, Verdict> {
    match r {
        Some(snapshot) => snapshot@,
        None => Map::empty(),
    }
}

impl EvaluationContext {
    /// The attribute `key` of the caller, if it was supplied.
    pub fn attribute(&self, key: &str) -> (r: Option<&String>)
        ensures
            match r {
                Some(value) => self@.context_map.contains_key(key@) && self@.context_map[key@]
                    == value@,
                None => !self@.context_map.contains_key(key@),
            },
    {
        self.context_map.get(key)
    }

    /// The snapshot that the mapper `name` left, if it left one.
    pub fn mapper_snapshot(&self, name: &str) -> (r: Option<&EvaluationResult>)
        ensures
            verdicts_of(r) == recorded(self@.result_by_mapper, name@),
    {
        self.result_by_mapper.get(name)
    }

    /// The snapshot that the phase `name` left, if it left one.
    pub fn phase_snapshot(&self, name: &str) -> (r: Option<&EvaluationResult>)
        ensures
            verdicts_of(r) == recorded(self@.result_by_phase, name@),
    {
        self.result_by_phase.get(name)
    }

    /// Keeps `verdicts` as the snapshot of the mapper `name`.
    pub fn keep_mapper_snapshot(&mut self, name: &str, verdicts: EvaluationResult)
        ensures
            final(self)@ == (ContextView {
                result_by_mapper: old(self)@.result_by_mapper.insert(name@, verdicts@),
                ..old(self)@
            }),
    {
        self.result_by_mapper.insert(String::from_str(name), verdicts);
        assert(self@.result_by_mapper =~= old(self)@.result_by_mapper.insert(name@, verdicts@));
    }

    /// Keeps `verdicts` as the snapshot of the phase `name`.
    pub fn keep_phase_snapshot(&mut self, name: &str, verdicts: EvaluationResult)
        ensures
            final(self)@ == (ContextView {
                result_by_phase: old(self)@.result_by_phase.insert(name@, verdicts@),
                ..old(self)@
            }),
    {
        self.result_by_phase.insert(String::from_str(name), verdicts);
        assert(self@.result_by_phase =~= old(self)@.result_by_phase.insert(name@, verdicts@));
    }
}

/// The context that nothing was put into: no experiment, no attribute, no
/// opt-in, no error, no outcome.
pub open spec fn empty_context() -> ContextView {
    ContextView {
        experiment_list: Seq::empty(),
        context_map: Map::empty(),
        opt_in_variant_display_ids: Seq::empty(),
        error_code: 0,
        error_message: Seq::empty(),
        result_by_mapper: Map::empty(),
        result_by_phase: Map::empty(),
        result: Map::empty(),
    }
}

impl Default for EvaluationContext {
    fn default() -> (c: Self)
        ensures
            c@ == empty_context(),
    {
        let c = EvaluationContext {
            experiment_list: Vec::new(),
            context_map: StringMap::new(),
            opt_in_variant_display_ids: Vec::new(),
            error_code: 0,
            error_message: String::new(),
            result_by_mapper: StringMap::new(),
            result_by_phase: StringMap::new(),
            result: EvaluationResult::new(),
        };
        proof {
            assert(c@.experiment_list =~= Seq::empty());
            assert(c@.context_map =~= Map::empty());
            assert(c@.opt_in_variant_display_ids =~= Seq::empty());
            assert(c@.result_by_phase =~= Map::empty());
        }
        c
    }
}

} // verus!

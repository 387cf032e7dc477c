//! Request-time core of an experiment qualification engine: given a catalog of
//! experiments and the attributes of one caller, decide for every variant
//! whether it applies to that caller.
//!
//! An evaluation works on one `EvaluationContext`. The `QualificationEngine`
//! runs its phases on it in order; the mapping phase runs its mappers in
//! order. Every stage is a function of the context, and every contract says
//! which one:
//!
//! - `ep_dto` holds the catalog, `core_qualification_dto` the context and the
//!   verdicts, each with its view.
//! - `expression` reads and evaluates targeting expressions, `hasher` puts a
//!   unit into a bucket.
//! - `survey` makes one pass over the catalog for a rule; `mapping` holds the
//!   rules of the mappers and `resolution` those of the later phases.
//! - `core_qualification_lib` holds the phases, the mappers and the engine.
//! - `guarantees` states what holds of every evaluation.
//! - `string_map` and `text` are the map and the text helpers underneath.

pub mod core_qualification_dto;
pub mod core_qualification_lib;
pub mod ep_dto;
pub mod expression;
pub mod guarantees;
pub mod hasher;
pub mod mapping;
pub mod resolution;
pub mod string_map;
pub mod survey;
pub mod text;

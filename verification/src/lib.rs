//! A data-driven rule engine: declarative rules, each a boolean condition over
//! a record of named values plus an outcome, evaluated in priority order, with
//! user-registered functions and templated outcome values.

mod config;
mod engine;
mod error;
mod eval;
mod functions;
mod laws;
mod num;
mod order;
mod render;
mod semantics;
mod text;
mod types;

pub use config::Config;
pub use engine::RuleEngine;
pub use error::ErrorRepr;
pub use error::RuleEngineError;
pub use functions::CustomFunction;
pub use functions::FunctionRegistry;
pub use functions::NoFunctions;
pub use functions::Registered;
pub use laws::lemma_evaluation_deterministic;
pub use laws::lemma_evaluation_exact;
pub use laws::lemma_sort_rules_sorted;
pub use laws::lemma_sort_rules_stable;
pub use laws::lemma_vacuous_conditions;
pub use laws::lemma_matched_outcomes_filter;
pub use laws::matched_outcomes;
pub use laws::no_faults;
pub use laws::satisfies;
pub use laws::sorted_desc;
pub use laws::lemma_sort_rules_permutation;
pub use num::is_numeric_text;
pub use num::numeric_cmp;
pub use semantics::EvalFault;
pub use semantics::apply_operator;
pub use semantics::call_arg;
pub use semantics::call_name;
pub use semantics::call_shape;
pub use semantics::consults_renderer;
pub use semantics::eval_all;
pub use semantics::eval_any;
pub use semantics::eval_cond;
pub use semantics::eval_simple;
pub use semantics::evaluation_of;
pub use semantics::fault_error;
pub use semantics::is_render_error;
pub use semantics::lookup_key;
pub use semantics::rendered_from;
pub use semantics::run_rules;
pub use semantics::sort_rules;
pub use semantics::tokens_of;
pub use types::Condition;
pub use types::Outcome;
pub use types::OutcomeRepr;
pub use types::Record;
pub use types::Rule;
pub use types::Value;
pub use types::ValueRepr;
pub use types::default_priority;

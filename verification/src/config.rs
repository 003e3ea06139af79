use vstd::prelude::*;

verus! {

use crate::engine::RuleEngine;
use crate::error::RuleEngineError;
use crate::functions::FunctionRegistry;
use crate::types::Rule;

/// The configuration layer around an engine: applying a freshly loaded rule
/// set.  Reading a rule-set document and parsing it belong to the embedding
/// application; the replacement step here is the part with a guarantee to
/// keep.
pub struct Config;

impl Config {
    /// Replaces the engine's rules with what a load from a file produced.
    /// The replacement is atomic: a load that failed leaves the engine's
    /// rules exactly as they were, and the loader's error comes back.
    pub fn reload_from_file<R: FunctionRegistry>(
        loaded: Result<Vec<Rule>, RuleEngineError>,
        engine: &mut RuleEngine<R>,
    ) -> (r: Result<(), RuleEngineError>)
        ensures
            final(engine).spec_functions() == old(engine).spec_functions(),
            final(engine).spec_stop() == old(engine).spec_stop(),
            match loaded {
                Ok(rules) => final(engine).rules@ == rules@ && r is Ok,
                Err(e) => final(engine).rules@ == old(engine).rules@ && (match r {
                    Err(e2) => e2@ == e@,
                    Ok(_) => false,
                }),
            },
    {
        match loaded {
            Ok(rules) => {
                engine.update_rules(rules);
                Ok(())
            },
            Err(e) => Err(e),
        }
    }
}

} // verus!

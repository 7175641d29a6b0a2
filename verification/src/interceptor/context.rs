//! The state of one run.

use vstd::prelude::*;
use crate::dictionary::Dictionary;
use crate::interceptor::result::ExecutionResult;
use crate::interceptor::scope::ExecutionScope;
use crate::types::{LoomValue, ParallelizationKind};

verus! {

/// The state of one run: created when the run starts, changed by directive
/// interceptors and when a called definition binds its arguments.
#[derive(Debug)]
pub struct ExecutionContext {
    pub variables: Dictionary<LoomValue>,
    pub env_vars: Dictionary<String>,
    pub working_dir: Option<String>,
    pub dry_run: bool,
    pub scope: ExecutionScope,
    pub parallelization_kind: ParallelizationKind,
    pub metadata: Dictionary<String>,
    /// In a sequence, the result of the child that ran before the current one.
    pub previous_result: Option<ExecutionResult>,
}

impl ExecutionContext {
    /// A context for a node of kind `scope`: no variables, no environment, no
    /// working directory, not a dry run, sequential.
    pub fn new(scope: ExecutionScope) -> (r: Self)
        ensures
            r.variables@ == Map::<Seq<char>, LoomValue>::empty(),
            r.env_vars@ == Map::<Seq<char>, String>::empty(),
            r.metadata@ == Map::<Seq<char>, String>::empty(),
            r.working_dir is None,
            !r.dry_run,
            r.scope == scope,
            r.parallelization_kind == ParallelizationKind::Sequential,
            r.previous_result is None,
    {
        ExecutionContext {
            variables: Dictionary::new(),
            env_vars: Dictionary::new(),
            working_dir: None,
            dry_run: false,
            scope,
            parallelization_kind: ParallelizationKind::Sequential,
            metadata: Dictionary::new(),
            previous_result: None,
        }
    }

    /// A copy of the value of the variable `name`.
    pub fn get_variable(&self, name: &str) -> (r: Option<LoomValue>)
        ensures
            match r {
                Some(v) => self.variables@.contains_key(name@) && v@ == self.variables@[name@]@,
                None => !self.variables@.contains_key(name@),
            },
    {
        match self.variables.get(name) {
            Some(v) => Some(v.clone()),
            None => None,
        }
    }
}

} // verus!

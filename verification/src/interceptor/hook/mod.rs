//! Handlers that are told of what happens in the life of a run.

use vstd::prelude::*;
use crate::dictionary::Dictionary;
use crate::interceptor::context::ExecutionContext;
use crate::interceptor::result::{ExecutionResult, HookResult};
use crate::interceptor::scope::ExecutionHook;

pub mod registry;

verus! {

/// What a handler is told.
#[derive(Debug)]
pub enum HookPayload {
    Command { command: Vec<String> },
    Result { result: ExecutionResult },
    Error { error: String },
    /// Free data, each entry a JSON document.
    Custom { data: Dictionary<String> },
}

/// A handler of one hook.
pub trait HookHandler {
    fn hook_type(&self) -> ExecutionHook;

    fn handle(&self, context: &mut ExecutionContext, payload: &HookPayload) -> HookResult;

    /// The priority of the handler: 100, unless the handler gives itself
    /// another.
    fn priority(&self) -> (r: i32)
        default_ensures
            r == 100,
    {
        100
    }
}

} // verus!

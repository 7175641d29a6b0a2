//! What the library asks of the interceptor of a directive.

use vstd::prelude::*;
use crate::ast::DirectiveCall;
use crate::context::LoomContext;
use crate::dictionary::Dictionary;
use crate::error::LoomError;
use crate::interceptor::context::ExecutionContext;
use crate::types::LoomValue;

verus! {

/// The interceptor of a directive, as far as the library calls it.
/// Intercepting itself is up to the application.
pub trait DirectiveInterceptor {
    /// The name of the directive, without the `@`.
    fn directive_name(&self) -> String;

    /// Reads the arguments of a call into named values.
    fn parse_parameters(
        &self,
        loom_context: &LoomContext,
        execution_context: &ExecutionContext,
        call: &DirectiveCall,
    ) -> Result<Dictionary<LoomValue>, LoomError>;

    /// The priority of the interceptor: 100, unless the interceptor gives
    /// itself another. With 100, which lies in no band of the directive
    /// interceptors, it cannot be registered.
    fn priority(&self) -> (r: i32)
        default_ensures
            r == 100,
    {
        100
    }

    /// Whether the interceptor hands control on to the rest of the chain.
    fn need_chain(&self) -> bool;
}

} // verus!

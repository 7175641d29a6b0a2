//! The interceptors of directives that the library brings along.

use vstd::prelude::*;
use vstd::string::*;
use crate::ast::DirectiveCall;
use crate::definition::directive::definition::DirectiveDefinition;
use crate::definition::directive::scope::DirectiveScope;
use crate::definition::{DeclaredView, ParameterDefinition, ParameterType, TypeView};
use crate::views::views;
use crate::context::LoomContext;
use crate::dictionary::Dictionary;
use crate::error::LoomError;
use crate::interceptor::context::ExecutionContext;
use crate::interceptor::directive::interceptor::DirectiveInterceptor;
use crate::interceptor::directive::manager::DirectiveInterceptorManager;
use crate::types::{LoomValue, ParallelizationKind};

verus! {

/// The interceptor of `@parallel`: it marks the run as parallel and hands
/// control on to the rest of the chain.
#[derive(Debug, Clone, Copy, PartialEq, Eq, Structural)]
pub struct ParallelDirectiveInterceptor;

/// The priority of `@parallel`, in the band of normal directives.
pub const PARALLEL_PRIORITY: i32 = 4000;

/// With how many threads `@parallel` asks children to be run.
pub const PARALLEL_THREADS: u8 = 2;

impl ParallelDirectiveInterceptor {
    pub fn new() -> (r: Self)
        ensures
            r == ParallelDirectiveInterceptor,
    {
        ParallelDirectiveInterceptor
    }

    /// What the interceptor does to the state of the run before it hands
    /// control on: it sets the kind of parallelization and nothing else.
    pub fn apply(&self, context: &mut ExecutionContext)
        ensures
            final(context).parallelization_kind == (ParallelizationKind::Parallel {
                max_thread: PARALLEL_THREADS,
            }),
            final(context).variables == old(context).variables,
            final(context).env_vars == old(context).env_vars,
            final(context).working_dir == old(context).working_dir,
            final(context).dry_run == old(context).dry_run,
            final(context).scope == old(context).scope,
            final(context).metadata == old(context).metadata,
            final(context).previous_result == old(context).previous_result,
    {
        context.parallelization_kind = ParallelizationKind::Parallel { max_thread: PARALLEL_THREADS };
    }
}

impl DirectiveInterceptor for ParallelDirectiveInterceptor {
    fn directive_name(&self) -> (r: String)
        ensures
            r@ == "parallel"@,
    {
        String::from_str("parallel")
    }

    /// `@parallel` takes no parameters.
    fn parse_parameters(
        &self,
        loom_context: &LoomContext,
        execution_context: &ExecutionContext,
        call: &DirectiveCall,
    ) -> (r: Result<Dictionary<LoomValue>, LoomError>)
        ensures
            r is Ok,
            r->Ok_0@ == Map::<Seq<char>, LoomValue>::empty(),
    {
        Ok(Dictionary::new())
    }

    fn priority(&self) -> (r: i32)
        ensures
            r == PARALLEL_PRIORITY,
    {
        PARALLEL_PRIORITY
    }

    fn need_chain(&self) -> (r: bool)
        ensures
            r,
    {
        true
    }
}

/// The interceptor of `@parallel` reads every call: a registry of such
/// interceptors never fails to read the parameters of a call.
pub proof fn parallel_reads_every_call(
    registry: DirectiveInterceptorManager<ParallelDirectiveInterceptor>,
    loom_context: &LoomContext,
)
    ensures
        registry.never_fails(loom_context),
{
}

/// The declaration of `@if`: it stands on a block and takes one condition,
/// written by position.
#[derive(Debug, Clone, Copy, PartialEq, Eq, Structural)]
pub struct IfDirectiveInterceptor;

/// The one parameter of `@if`.
pub open spec fn condition_parameter() -> DeclaredView {
    DeclaredView {
        name: "condition"@,
        param_type: TypeView::Boolean,
        has_default: false,
        required: true,
        allow_named_parameter: false,
        varargs: false,
        validation_rules: None,
    }
}

impl DirectiveDefinition for IfDirectiveInterceptor {
    fn name(&self) -> (r: String)
        ensures
            r@ == "if"@,
    {
        String::from_str("if")
    }

    fn description(&self) -> (r: String)
        ensures
            r@ == "Conditionally execute blocks of commands"@,
    {
        String::from_str("Conditionally execute blocks of commands")
    }

    fn scope(&self) -> (r: Vec<DirectiveScope>)
        ensures
            r@ == seq![DirectiveScope::Block],
    {
        let mut scopes: Vec<DirectiveScope> = Vec::new();
        scopes.push(DirectiveScope::Block);
        assert(scopes@ =~= seq![DirectiveScope::Block]);
        scopes
    }

    fn parameters(&self) -> (r: Vec<ParameterDefinition>)
        ensures
            views(r@) == seq![condition_parameter()],
    {
        let mut condition = ParameterDefinition::new(ParameterType::Boolean, "condition");
        condition.description = String::from_str(
            "The condition under which the block of the directive is run",
        );
        condition.allow_named_parameter = false;
        let mut parameters: Vec<ParameterDefinition> = Vec::new();
        parameters.push(condition);
        assert(views(parameters@) =~= seq![condition_parameter()]);
        parameters
    }
}

} // verus!

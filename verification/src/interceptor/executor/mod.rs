//! The executors: what runs at the end of a chain.

use vstd::prelude::*;
use vstd::string::*;
use crate::ast::{ExprView, Expression};
use crate::interceptor::{ActiveInterceptor, InterceptorView};
use crate::views::views;
use crate::{InputArg, InputArgView};

verus! {

/// The configuration of an executor. There is nothing to configure yet.
#[derive(Debug, Clone, Copy, PartialEq, Eq, Structural)]
pub struct ExecutorConfig {
    pub reserved: bool,
}

impl Default for ExecutorConfig {
    fn default() -> (r: Self)
        ensures
            r == (ExecutorConfig { reserved: false }),
    {
        ExecutorConfig { reserved: false }
    }
}

/// Runs one shell command: the text of its parts, one after another.
#[derive(Debug)]
pub struct CommandExecutorInterceptor(pub Vec<Expression>);

/// Runs a chain.
#[derive(Debug)]
pub struct SequenceChainInterceptor(pub Vec<ActiveInterceptor>);

/// Runs its children one after another; the second field is its name.
#[derive(Debug)]
pub struct SequentialExecutorInterceptor(pub Vec<ActiveInterceptor>, pub String);

/// Binds the arguments of the definition named first, then runs its parts,
/// held second, one after another.
#[derive(Debug)]
pub struct DefinitionExecutorInterceptor(pub String, pub Vec<ActiveInterceptor>, pub Vec<InputArg>);

/// The executors that the library knows.
#[derive(Debug)]
pub enum Executor {
    Command(CommandExecutorInterceptor),
    SequenceChain(SequenceChainInterceptor),
    Sequential(SequentialExecutorInterceptor),
    Definition(DefinitionExecutorInterceptor),
}

/// An executor as the contracts see it.
pub enum ExecutorView {
    Command { parts: Seq<ExprView> },
    SequenceChain { chain: Seq<InterceptorView> },
    Sequential { children: Seq<InterceptorView>, label: Seq<char> },
    Definition { definition: Seq<char>, chain: Seq<InterceptorView>, args: Seq<InputArgView> },
}

impl ExecutorView {
    /// The name under which the executor appears in a chain.
    pub open spec fn name(self) -> Seq<char> {
        match self {
            ExecutorView::Command { .. } => "command"@,
            ExecutorView::SequenceChain { .. } => "SequenceChainInterceptor"@,
            ExecutorView::Sequential { label, .. } => label,
            ExecutorView::Definition { .. } => "definition"@,
        }
    }
}

/// A copy of a list of arguments.
pub fn clone_input_args(v: &Vec<InputArg>) -> (r: Vec<InputArg>)
    ensures
        views(r@) == views(v@),
{
    let mut out: Vec<InputArg> = Vec::new();
    let mut i: usize = 0;
    while i < v.len()
        invariant
            i <= v.len(),
            out.len() == i,
            forall|j: int| 0 <= j < i ==> out@[j]@ == v@[j]@,
        decreases v.len() - i,
    {
        out.push(v[i].clone());
        i += 1;
    }
    assert(views(out@) =~= views(v@));
    out
}

impl Executor {
    /// The name under which the executor appears in a chain.
    pub fn name(&self) -> (r: String)
        ensures
            r@ == crate::interceptor::executor_view(*self).name(),
    {
        match self {
            Executor::Command(_) => String::from_str("command"),
            Executor::SequenceChain(_) => String::from_str("SequenceChainInterceptor"),
            Executor::Sequential(s) => s.1.clone(),
            Executor::Definition(_) => String::from_str("definition"),
        }
    }

    /// What the executor does, in a few words.
    pub fn description(&self) -> (r: &'static str)
        ensures
            r@ == match self {
                Executor::Command(_) => "Runs a command"@,
                Executor::SequenceChain(_) => "SequenceChainInterceptor"@,
                Executor::Sequential(_) => "SequentialExecutorInterceptor"@,
                Executor::Definition(_) => "Runs a definition"@,
            },
    {
        match self {
            Executor::Command(_) => "Runs a command",
            Executor::SequenceChain(_) => "SequenceChainInterceptor",
            Executor::Sequential(_) => "SequentialExecutorInterceptor",
            Executor::Definition(_) => "Runs a definition",
        }
    }

    pub fn default_config(&self) -> (r: ExecutorConfig)
        ensures
            r == (ExecutorConfig { reserved: false }),
    {
        ExecutorConfig { reserved: false }
    }

    /// An executor never hands control on: it ends its chain.
    pub fn need_chain(&self) -> (r: bool)
        ensures
            !r,
    {
        false
    }
}

/// What an interceptor gets that hands control on though nothing stands
/// behind it.
pub fn empty_execute_intercept_next() -> (r: Result<
    crate::interceptor::result::ExecutionResult,
    crate::error::LoomError,
>)
    ensures
        r is Err,
        r->Err_0@ == crate::interceptor::run::nothing_behind(),
{
    Err(crate::error::LoomError::execution("You are trying to call an empty interceptor chain"))
}

/// An executor as it stands in a chain.
#[derive(Debug)]
pub struct ActiveExecutorInterceptor {
    pub interceptor: Executor,
    pub config: ExecutorConfig,
    pub name: String,
}

/// An active executor as the contracts see it.
pub struct ActiveExecutorView {
    pub executor: ExecutorView,
    pub name: Seq<char>,
}

impl ActiveExecutorInterceptor {
    pub fn new(executor: Executor) -> (r: Self)
        ensures
            r.interceptor == executor,
            r.name@ == crate::interceptor::executor_view(executor).name(),
            r.config == (ExecutorConfig { reserved: false }),
    {
        let name = executor.name();
        ActiveExecutorInterceptor { name, config: ExecutorConfig { reserved: false }, interceptor: executor }
    }
}

} // verus!

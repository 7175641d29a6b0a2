//! Interceptors, the chains built from them and the engine that runs a chain.

use vstd::prelude::*;
use crate::ast::clone_expressions;
use crate::dictionary::clone_value_dictionary;
use crate::interceptor::directive::{ActiveDirectiveInterceptor, ActiveDirectiveView};
use crate::interceptor::executor::{
    clone_input_args, ActiveExecutorInterceptor, ActiveExecutorView, CommandExecutorInterceptor,
    DefinitionExecutorInterceptor, Executor, ExecutorView, SequenceChainInterceptor,
    SequentialExecutorInterceptor,
};
use crate::interceptor::global::{ActiveGlobalInterceptor, ActiveGlobalView};
use crate::interceptor::priority::Prioritized;
use crate::views::views;

pub mod chain;
pub mod context;
pub mod directive;
pub mod engine;
pub mod executor;
pub mod global;
pub mod hook;
pub mod priority;
pub mod result;
pub mod run;
pub mod scope;

verus! {

/// One element of a chain.
#[derive(Debug)]
pub enum ActiveInterceptor {
    Global(ActiveGlobalInterceptor),
    Directive(ActiveDirectiveInterceptor),
    Executor(ActiveExecutorInterceptor),
}

/// An element of a chain as the contracts see it.
pub enum InterceptorView {
    Global(ActiveGlobalView),
    Directive(ActiveDirectiveView),
    Executor(ActiveExecutorView),
}

/// The view of a chain.
pub open spec fn chain_view(chain: Seq<ActiveInterceptor>) -> Seq<InterceptorView>
    decreases chain,
{
    Seq::new(
        chain.len(),
        |i: int|
            if 0 <= i < chain.len() {
                interceptor_view(chain[i])
            } else {
                InterceptorView::Executor(
                    ActiveExecutorView {
                        executor: ExecutorView::Command { parts: Seq::empty() },
                        name: Seq::empty(),
                    },
                )
            },
    )
}

/// The view of an executor.
pub open spec fn executor_view(executor: Executor) -> ExecutorView
    decreases executor,
{
    match executor {
        Executor::Command(c) => ExecutorView::Command { parts: views(c.0@) },
        Executor::SequenceChain(s) => ExecutorView::SequenceChain { chain: chain_view(s.0@) },
        Executor::Sequential(s) => ExecutorView::Sequential {
            children: chain_view(s.0@),
            label: s.1@,
        },
        Executor::Definition(d) => ExecutorView::Definition {
            definition: d.0@,
            chain: chain_view(d.1@),
            args: views(d.2@),
        },
    }
}

/// The view of an element of a chain.
pub open spec fn interceptor_view(interceptor: ActiveInterceptor) -> InterceptorView
    decreases interceptor,
{
    match interceptor {
        ActiveInterceptor::Global(g) => InterceptorView::Global(g@),
        ActiveInterceptor::Directive(d) => InterceptorView::Directive(d@),
        ActiveInterceptor::Executor(e) => InterceptorView::Executor(
            ActiveExecutorView { executor: executor_view(e.interceptor), name: e.name@ },
        ),
    }
}

impl View for ActiveInterceptor {
    type V = InterceptorView;

    open spec fn view(&self) -> InterceptorView {
        interceptor_view(*self)
    }
}

impl View for Executor {
    type V = ExecutorView;

    open spec fn view(&self) -> ExecutorView {
        executor_view(*self)
    }
}

impl View for ActiveExecutorInterceptor {
    type V = ActiveExecutorView;

    open spec fn view(&self) -> ActiveExecutorView {
        ActiveExecutorView { executor: executor_view(self.interceptor), name: self.name@ }
    }
}

/// The view of a chain is the views of its elements.
pub proof fn chain_view_is_views(chain: Seq<ActiveInterceptor>)
    ensures
        chain_view(chain) == views(chain),
{
    assert(chain_view(chain) =~= views(chain));
}

impl InterceptorView {
    /// The priority of an element: its own for a global or a directive
    /// interceptor, the highest number there is for an executor.
    pub open spec fn priority(self) -> int {
        match self {
            InterceptorView::Global(g) => g.config.priority,
            InterceptorView::Directive(d) => d.priority,
            InterceptorView::Executor(_) => i32::MAX as int,
        }
    }

    pub open spec fn name(self) -> Seq<char> {
        match self {
            InterceptorView::Global(g) => g.name,
            InterceptorView::Directive(d) => d.name,
            InterceptorView::Executor(e) => e.name,
        }
    }

    /// Whether the element hands control on to the rest of its chain.
    pub open spec fn need_chain(self) -> bool {
        match self {
            InterceptorView::Global(g) => g.need_chain,
            InterceptorView::Directive(d) => d.need_chain,
            InterceptorView::Executor(_) => false,
        }
    }

    /// `global`, `directive` or `executor`.
    pub open spec fn category(self) -> Seq<char> {
        match self {
            InterceptorView::Global(_) => "global"@,
            InterceptorView::Directive(_) => "directive"@,
            InterceptorView::Executor(_) => "executor"@,
        }
    }
}

impl Clone for ActiveDirectiveInterceptor {
    fn clone(&self) -> (r: Self)
        ensures
            r@ == self@,
    {
        let params = clone_value_dictionary(&self.params);
        ActiveDirectiveInterceptor {
            params,
            name: self.name.clone(),
            priority: self.priority,
            need_chain: self.need_chain,
        }
    }
}

/// A copy of a chain.
pub fn clone_chain(chain: &Vec<ActiveInterceptor>) -> (r: Vec<ActiveInterceptor>)
    ensures
        chain_view(r@) == chain_view(chain@),
    decreases chain,
{
    let mut out: Vec<ActiveInterceptor> = Vec::new();
    let mut i: usize = 0;
    while i < chain.len()
        invariant
            i <= chain.len(),
            out.len() == i,
            forall|j: int| 0 <= j < i ==> interceptor_view(out@[j]) == interceptor_view(chain@[j]),
        decreases chain.len() - i,
    {
        out.push(clone_interceptor(&chain[i]));
        i += 1;
    }
    assert(chain_view(out@) =~= chain_view(chain@));
    out
}

/// A copy of an executor.
pub fn clone_executor(executor: &Executor) -> (r: Executor)
    ensures
        executor_view(r) == executor_view(*executor),
    decreases executor,
{
    match executor {
        Executor::Command(c) => Executor::Command(CommandExecutorInterceptor(clone_expressions(&c.0))),
        Executor::SequenceChain(s) => Executor::SequenceChain(
            SequenceChainInterceptor(clone_chain(&s.0)),
        ),
        Executor::Sequential(s) => Executor::Sequential(
            SequentialExecutorInterceptor(clone_chain(&s.0), s.1.clone()),
        ),
        Executor::Definition(d) => Executor::Definition(
            DefinitionExecutorInterceptor(d.0.clone(), clone_chain(&d.1), clone_input_args(&d.2)),
        ),
    }
}

/// A copy of an element of a chain.
pub fn clone_interceptor(interceptor: &ActiveInterceptor) -> (r: ActiveInterceptor)
    ensures
        interceptor_view(r) == interceptor_view(*interceptor),
    decreases interceptor,
{
    match interceptor {
        ActiveInterceptor::Global(g) => ActiveInterceptor::Global(g.clone()),
        ActiveInterceptor::Directive(d) => ActiveInterceptor::Directive(d.clone()),
        ActiveInterceptor::Executor(e) => ActiveInterceptor::Executor(
            ActiveExecutorInterceptor {
                interceptor: clone_executor(&e.interceptor),
                config: e.config,
                name: e.name.clone(),
            },
        ),
    }
}

impl Clone for ActiveInterceptor {
    fn clone(&self) -> (r: Self)
        ensures
            r@ == self@,
    {
        clone_interceptor(self)
    }
}

impl Prioritized for ActiveInterceptor {
    open spec fn rank(&self) -> int {
        interceptor_view(*self).priority()
    }

    fn priority_value(&self) -> (r: i32) {
        self.priority()
    }
}

impl ActiveInterceptor {
    /// The priority of the element. An executor has the highest number there
    /// is: it is put last by its place, not by its priority.
    pub fn priority(&self) -> (r: i32)
        ensures
            r as int == self@.priority(),
    {
        match self {
            ActiveInterceptor::Global(g) => g.config.priority,
            ActiveInterceptor::Directive(d) => d.priority,
            ActiveInterceptor::Executor(_) => i32::MAX,
        }
    }

    pub fn name(&self) -> (r: &str)
        ensures
            r@ == self@.name(),
    {
        match self {
            ActiveInterceptor::Global(g) => g.name.as_str(),
            ActiveInterceptor::Directive(d) => d.name.as_str(),
            ActiveInterceptor::Executor(e) => e.name.as_str(),
        }
    }

    /// `global`, `directive` or `executor`.
    pub fn interceptor_type(&self) -> (r: &'static str)
        ensures
            r@ == self@.category(),
    {
        match self {
            ActiveInterceptor::Global(_) => "global",
            ActiveInterceptor::Directive(_) => "directive",
            ActiveInterceptor::Executor(_) => "executor",
        }
    }

    /// Whether the element hands control on to the rest of its chain.
    pub fn need_chain(&self) -> (r: bool)
        ensures
            r == self@.need_chain(),
    {
        match self {
            ActiveInterceptor::Global(g) => g.need_chain,
            ActiveInterceptor::Directive(d) => d.need_chain,
            ActiveInterceptor::Executor(_) => false,
        }
    }

    /// Whether `a` goes before `b` when a chain is sorted.
    pub fn sort(a: &ActiveInterceptor, b: &ActiveInterceptor) -> (r: bool)
        ensures
            r == (a@.priority() > b@.priority()),
    {
        a.priority() > b.priority()
    }
}

} // verus!

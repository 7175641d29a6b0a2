//! What the chain of a node is.
//!
//! The chain of a node is stated here as a spec function of the node, the
//! registry and what is registered ([`expected_chain`]), together with what
//! a build owes of the interceptors that it asks to read the parameters of
//! directive calls: which calls are asked ([`asks_for`]), how the answers
//! account for the way a build ends ([`accounted`]), and that the
//! parameters in a chain are those that were read ([`read_below`]). The
//! engine builds chains against these statements.

use vstd::prelude::*;
use vstd::string::*;
use crate::{InputArg, InputArgView};
use crate::ast::{DirectiveCall, DirectiveCallView, StatementView};
use crate::context::LoomContext;
use crate::dictionary::{Dictionary, view_map};
use crate::error::{ErrorView, InterceptorErrorView, LoomError};
use crate::interceptor::{ActiveInterceptor, InterceptorView, chain_view};
use crate::interceptor::context::ExecutionContext;
use crate::interceptor::directive::ActiveDirectiveView;
use crate::interceptor::directive::interceptor::DirectiveInterceptor;
use crate::interceptor::directive::manager::{
    DirectiveInterceptorManager,
    DirectiveOutline,
    active_outlines,
    all_known,
    first_unknown,
    unknown_directive,
};
use crate::interceptor::executor::{ActiveExecutorView, ExecutorView};
use crate::interceptor::global::ActiveGlobalView;
use crate::interceptor::priority::{
    sorted_holds_the_same, sorted_prefix_of_mapped, stable_sort, stable_sort_properties,
};
use crate::interceptor::scope::{ActivityView, activity_of, children_of};
use crate::types::{LoomValue, bind_positional};
use crate::views::views;

verus! {

/// Global interceptors as elements of a chain.
pub open spec fn as_globals(globals: Seq<ActiveGlobalView>) -> Seq<InterceptorView> {
    Seq::new(globals.len(), |i: int| InterceptorView::Global(globals[i]))
}

/// Directive interceptors as elements of a chain.
pub open spec fn as_directives(directives: Seq<ActiveDirectiveView>) -> Seq<InterceptorView> {
    Seq::new(directives.len(), |i: int| InterceptorView::Directive(directives[i]))
}

/// The priority of an element of a chain.
pub open spec fn interceptor_rank() -> spec_fn(InterceptorView) -> int {
    |v: InterceptorView| v.priority()
}

/// The chain of a node: the global interceptors, then the directive
/// interceptors, sorted together by falling priority so that elements of
/// equal priority keep that order; the terminal executor last.
pub open spec fn plugged(
    globals: Seq<ActiveGlobalView>,
    directives: Seq<ActiveDirectiveView>,
    terminal: InterceptorView,
) -> Seq<InterceptorView> {
    stable_sort(as_globals(globals) + as_directives(directives), interceptor_rank()).push(terminal)
}

/// Whether a chain is in order: it ends in an executor, nothing before that
/// is an executor, and priorities never rise before it.
pub open spec fn well_ordered(chain: Seq<InterceptorView>) -> bool {
    &&& chain.len() > 0
    &&& chain.last() is Executor
    &&& forall|i: int| 0 <= i < chain.len() - 1 ==> !((#[trigger] chain[i]) is Executor)
    &&& forall|i: int, j: int|
        0 <= i < j < chain.len() - 1 ==> chain[i].priority() >= chain[j].priority()
}

/// A chain that is plugged together around an executor is in order, and it
/// holds every global and every directive interceptor that went in, once.
pub proof fn plugged_is_well_ordered(
    globals: Seq<ActiveGlobalView>,
    directives: Seq<ActiveDirectiveView>,
    terminal: InterceptorView,
)
    requires
        terminal is Executor,
    ensures
        well_ordered(plugged(globals, directives, terminal)),
        plugged(globals, directives, terminal).len() == globals.len() + directives.len() + 1,
        plugged(globals, directives, terminal).last() == terminal,
        plugged(globals, directives, terminal).drop_last().to_multiset() == (as_globals(globals)
            + as_directives(directives)).to_multiset(),
{
    broadcast use vstd::seq_lib::group_to_multiset_ensures;

    let unified = as_globals(globals) + as_directives(directives);
    let sorted = stable_sort(unified, interceptor_rank());
    stable_sort_properties(unified, interceptor_rank());
    let chain = plugged(globals, directives, terminal);
    assert(chain.drop_last() =~= sorted);
    assert forall|i: int| 0 <= i < chain.len() - 1 implies !((#[trigger] chain[i]) is Executor) by {
        assert(chain[i] == sorted[i]);
        assert(sorted.contains(sorted[i]));
        assert(sorted.to_multiset().count(sorted[i]) > 0);
        assert(unified.to_multiset().count(sorted[i]) > 0);
        assert(unified.contains(sorted[i]));
        let w = choose|w: int| 0 <= w < unified.len() && unified[w] == sorted[i];
        if w < globals.len() {
            assert(unified[w] == as_globals(globals)[w]);
        } else {
            assert(unified[w] == as_directives(directives)[w - globals.len()]);
        }
    }
    assert forall|i: int, j: int| 0 <= i < j < chain.len() - 1 implies chain[i].priority()
        >= chain[j].priority() by {
        assert(chain[i] == sorted[i] && chain[j] == sorted[j]);
        assert(interceptor_rank()(sorted[i]) >= interceptor_rank()(sorted[j]));
    }
}


/// A directive interceptor without its parameters.
pub open spec fn bare(directive: ActiveDirectiveView) -> ActiveDirectiveView {
    ActiveDirectiveView {
        params: Map::empty(),
        name: directive.name,
        priority: directive.priority,
        need_chain: directive.need_chain,
    }
}

/// A chain without the parameters of its directive interceptors, nested
/// chains included.
pub open spec fn outline_of_chain(chain: Seq<InterceptorView>) -> Seq<InterceptorView>
    decreases chain,
{
    Seq::new(
        chain.len(),
        |i: int|
            if 0 <= i < chain.len() {
                outline_of(chain[i])
            } else {
                InterceptorView::Directive(
                    ActiveDirectiveView {
                        params: Map::empty(),
                        name: Seq::empty(),
                        priority: 0,
                        need_chain: false,
                    },
                )
            },
    )
}

/// An element of a chain without the parameters of directive interceptors.
pub open spec fn outline_of(element: InterceptorView) -> InterceptorView
    decreases element,
{
    match element {
        InterceptorView::Global(g) => InterceptorView::Global(g),
        InterceptorView::Directive(d) => InterceptorView::Directive(bare(d)),
        InterceptorView::Executor(e) => InterceptorView::Executor(
            ActiveExecutorView {
                executor: match e.executor {
                    ExecutorView::Command { parts } => ExecutorView::Command { parts },
                    ExecutorView::SequenceChain { chain } => ExecutorView::SequenceChain {
                        chain: outline_of_chain(chain),
                    },
                    ExecutorView::Sequential { children, label } => ExecutorView::Sequential {
                        children: outline_of_chain(children),
                        label,
                    },
                    ExecutorView::Definition { definition, chain, args } => ExecutorView::Definition {
                        definition,
                        chain: outline_of_chain(chain),
                        args,
                    },
                },
                name: e.name,
            },
        ),
    }
}

/// The directive interceptors of the calls of a node, without parameters;
/// the error of the first call whose directive is not registered.
pub open spec fn expected_directives(
    entries: Seq<DirectiveOutline>,
    calls: Seq<DirectiveCallView>,
) -> Result<Seq<ActiveDirectiveView>, ErrorView> {
    if all_known(entries, calls) {
        let sorted = active_outlines(entries, calls);
        Ok(
            Seq::new(
                sorted.len(),
                |i: int|
                    ActiveDirectiveView {
                        params: Map::empty(),
                        name: sorted[i].name,
                        priority: sorted[i].priority,
                        need_chain: sorted[i].need_chain,
                    },
            ),
        )
    } else {
        Err(
            ErrorView::plain(
                unknown_directive(calls[first_unknown(entries, calls, calls.len()) as int].name),
            ),
        )
    }
}

/// The error for nesting that goes deeper than the limit.
pub open spec fn nesting_too_deep() -> ErrorView {
    ErrorView::plain("Call depth limit exceeded while building the chain"@)
}

/// The error for a call of a definition that is not there.
pub open spec fn unresolved_call(name: Seq<char>) -> ErrorView {
    ErrorView::interceptor(
        InterceptorErrorView::DefinitionResolution { name, message: "Cannot resolve the call"@ },
    )
}

/// A chain wrapped as the executor that runs it.
pub open spec fn sequence_of(chain: Seq<InterceptorView>) -> InterceptorView {
    InterceptorView::Executor(
        ActiveExecutorView {
            executor: ExecutorView::SequenceChain { chain },
            name: "SequenceChainInterceptor"@,
        },
    )
}

/// The executor that runs the children of a block one after another.
pub open spec fn block_sequence(children: Seq<InterceptorView>) -> InterceptorView {
    InterceptorView::Executor(
        ActiveExecutorView {
            executor: ExecutorView::Sequential { children, label: "Block"@ },
            name: "Block"@,
        },
    )
}

/// The executor that runs the jobs of a stage one after another.
pub open spec fn stage_sequence(children: Seq<InterceptorView>) -> InterceptorView {
    InterceptorView::Executor(
        ActiveExecutorView {
            executor: ExecutorView::Sequential { children, label: "Stage"@ },
            name: "Stage"@,
        },
    )
}

/// The executor that binds the arguments of a definition and runs its
/// parts, each wrapped as one executor, one after another.
pub open spec fn definition_executor(
    definition: Seq<char>,
    chain: Seq<InterceptorView>,
    args: Seq<InputArgView>,
) -> InterceptorView {
    InterceptorView::Executor(
        ActiveExecutorView {
            executor: ExecutorView::Definition { definition, chain, args },
            name: "definition"@,
        },
    )
}

/// The arguments, or none.
pub open spec fn args_or_none(args: Option<Seq<InputArgView>>) -> Seq<InputArgView> {
    match args {
        Some(a) => a,
        None => Seq::empty(),
    }
}

/// The chain of a node, without the parameters of directive interceptors:
///
/// - a command: the global interceptors and those of its directives, then
///   the executor of the command;
/// - a call: the chain of the called definition, with the arguments of the
///   call bound to its parameters by their order;
/// - a block: the chains of its statements, each wrapped as one executor,
///   run in sequence by the executor of the block;
/// - a job or a definition: the same over its blocks, under the executor of
///   the definition, which binds the arguments first;
/// - a stage: the chains of its jobs, each wrapped as one executor, run in
///   sequence by the executor of the stage;
/// - a pipeline: as a job, over its stages;
/// - a schedule, which has no body: the empty chain.
///
/// It is an error where a call names no definition or has too many
/// arguments, where a directive is not registered, and where calls and
/// blocks nest deeper than `fuel`.
pub open spec fn expected_chain(
    activity: ActivityView,
    registry: &LoomContext,
    entries: Seq<DirectiveOutline>,
    globals: Seq<ActiveGlobalView>,
    args: Option<Seq<InputArgView>>,
    fuel: nat,
) -> Result<Seq<InterceptorView>, ErrorView>
    decreases fuel, 2int,
{
    match activity {
        ActivityView::Command(StatementView::Command { parts, directives }) => {
            match expected_directives(entries, directives) {
                Ok(d) => Ok(
                    plugged(
                        globals,
                        d,
                        InterceptorView::Executor(
                            ActiveExecutorView {
                                executor: ExecutorView::Command { parts },
                                name: "command"@,
                            },
                        ),
                    ),
                ),
                Err(e) => Err(e),
            }
        },
        ActivityView::Command(StatementView::Call { name, args: call_args, .. }) => {
            if fuel == 0 {
                Err(nesting_too_deep())
            } else {
                match registry.definition_named(name) {
                    None => Err(unresolved_call(name)),
                    Some(definition) => match bind_positional(definition@.signature, call_args) {
                        Err(e) => Err(e),
                        Ok(bound) => expected_chain(
                            activity_of(definition@),
                            registry,
                            entries,
                            globals,
                            Some(bound),
                            (fuel - 1) as nat,
                        ),
                    },
                }
            }
        },
        ActivityView::Block(block) => {
            match children_of(activity, registry) {
                Err(e) => Err(e),
                Ok(children) => match expected_children(
                    children,
                    children.len(),
                    registry,
                    entries,
                    globals,
                    fuel,
                ) {
                    Err(e) => Err(e),
                    Ok(chains) => match expected_directives(entries, block.directives) {
                        Ok(d) => Ok(plugged(globals, d, block_sequence(chains))),
                        Err(e) => Err(e),
                    },
                },
            }
        },
        ActivityView::Stage(stage) => {
            match children_of(activity, registry) {
                Err(e) => Err(e),
                Ok(children) => match expected_children(
                    children,
                    children.len(),
                    registry,
                    entries,
                    globals,
                    fuel,
                ) {
                    Err(e) => Err(e),
                    Ok(chains) => match expected_directives(entries, stage.directives) {
                        Ok(d) => Ok(plugged(globals, d, stage_sequence(chains))),
                        Err(e) => Err(e),
                    },
                },
            }
        },
        ActivityView::Pipeline { name, directives, .. } => expected_definition_chain(
            activity,
            name,
            directives,
            registry,
            entries,
            globals,
            args,
            fuel,
        ),
        ActivityView::Schedule { .. } => Ok(Seq::empty()),
        ActivityView::Job { name, directives, .. } => expected_definition_chain(
            activity,
            name,
            directives,
            registry,
            entries,
            globals,
            args,
            fuel,
        ),
        ActivityView::Definition { name, directives, .. } => expected_definition_chain(
            activity,
            name,
            directives,
            registry,
            entries,
            globals,
            args,
            fuel,
        ),
    }
}

/// The chain of a job or a definition.
pub open spec fn expected_definition_chain(
    activity: ActivityView,
    name: Seq<char>,
    directives: Seq<DirectiveCallView>,
    registry: &LoomContext,
    entries: Seq<DirectiveOutline>,
    globals: Seq<ActiveGlobalView>,
    args: Option<Seq<InputArgView>>,
    fuel: nat,
) -> Result<Seq<InterceptorView>, ErrorView>
    decreases fuel, 1int,
{
    match children_of(activity, registry) {
        Err(e) => Err(e),
        Ok(children) => match expected_children(
            children,
            children.len(),
            registry,
            entries,
            globals,
            fuel,
        ) {
            Err(e) => Err(e),
            Ok(chains) => match expected_directives(entries, directives) {
                Ok(d) => Ok(plugged(globals, d, definition_executor(name, chains, args_or_none(args)))),
                Err(e) => Err(e),
            },
        },
    }
}

/// The chains of the first `n` children, each wrapped as one executor.
pub open spec fn expected_children(
    children: Seq<ActivityView>,
    n: nat,
    registry: &LoomContext,
    entries: Seq<DirectiveOutline>,
    globals: Seq<ActiveGlobalView>,
    fuel: nat,
) -> Result<Seq<InterceptorView>, ErrorView>
    decreases fuel, 0int, n,
{
    if n == 0 || n > children.len() {
        Ok(Seq::empty())
    } else if fuel == 0 {
        Err(nesting_too_deep())
    } else {
        match expected_children(children, (n - 1) as nat, registry, entries, globals, fuel) {
            Err(e) => Err(e),
            Ok(before) => match expected_chain(
                children[n - 1],
                registry,
                entries,
                globals,
                None,
                (fuel - 1) as nat,
            ) {
                Err(e) => Err(e),
                Ok(chain) => Ok(before.push(sequence_of(chain))),
            },
        }
    }
}

/// Once a child among the first `k` has no chain, the error is settled.
pub proof fn expected_children_stops(
    children: Seq<ActivityView>,
    k: nat,
    n: nat,
    registry: &LoomContext,
    entries: Seq<DirectiveOutline>,
    globals: Seq<ActiveGlobalView>,
    fuel: nat,
)
    requires
        k <= n <= children.len(),
        expected_children(children, k, registry, entries, globals, fuel) is Err,
    ensures
        expected_children(children, n, registry, entries, globals, fuel) == expected_children(
            children,
            k,
            registry,
            entries,
            globals,
            fuel,
        ),
    decreases n,
{
    if k < n {
        expected_children_stops(children, k, (n - 1) as nat, registry, entries, globals, fuel);
    }
}

/// Whether the interceptors of the calls of a node are asked to read their
/// parameters: there is a call, and every call names a registered directive.
pub open spec fn parameters_read(entries: Seq<DirectiveOutline>, calls: Seq<DirectiveCallView>) -> bool {
    calls.len() > 0 && all_known(entries, calls)
}

/// Whether building the chain of a node asks an interceptor to read the
/// parameters of a directive call, at the node or below it, before the build
/// comes to its end or to the first error of the structure. Where it asks
/// none, nothing but the registry and the registrations decides how the
/// build ends.
pub open spec fn asks_interceptors(
    activity: ActivityView,
    registry: &LoomContext,
    entries: Seq<DirectiveOutline>,
    globals: Seq<ActiveGlobalView>,
    fuel: nat,
) -> bool
    decreases fuel, 2int,
{
    match activity {
        ActivityView::Command(StatementView::Command { directives, .. }) => parameters_read(
            entries,
            directives,
        ),
        ActivityView::Command(StatementView::Call { name, args: call_args, .. }) => {
            fuel > 0 && match registry.definition_named(name) {
                None => false,
                Some(definition) => bind_positional(definition@.signature, call_args) is Ok
                    && asks_interceptors(
                    activity_of(definition@),
                    registry,
                    entries,
                    globals,
                    (fuel - 1) as nat,
                ),
            }
        },
        ActivityView::Block(block) => match children_of(activity, registry) {
            Err(_) => false,
            Ok(children) => children_ask(
                children,
                children.len(),
                registry,
                entries,
                globals,
                fuel,
            ) || (expected_children(children, children.len(), registry, entries, globals, fuel)
                is Ok && parameters_read(entries, block.directives)),
        },
        ActivityView::Stage(stage) => match children_of(activity, registry) {
            Err(_) => false,
            Ok(children) => children_ask(
                children,
                children.len(),
                registry,
                entries,
                globals,
                fuel,
            ) || (expected_children(children, children.len(), registry, entries, globals, fuel)
                is Ok && parameters_read(entries, stage.directives)),
        },
        ActivityView::Pipeline { directives, .. } => composite_asks(
            activity,
            directives,
            registry,
            entries,
            globals,
            fuel,
        ),
        ActivityView::Schedule { .. } => false,
        ActivityView::Job { directives, .. } => composite_asks(
            activity,
            directives,
            registry,
            entries,
            globals,
            fuel,
        ),
        ActivityView::Definition { directives, .. } => composite_asks(
            activity,
            directives,
            registry,
            entries,
            globals,
            fuel,
        ),
    }
}

/// Whether building the chain of a node with children asks an interceptor:
/// for a child, or, where all children have their chains, for a directive
/// call of the node itself.
pub open spec fn composite_asks(
    activity: ActivityView,
    directives: Seq<DirectiveCallView>,
    registry: &LoomContext,
    entries: Seq<DirectiveOutline>,
    globals: Seq<ActiveGlobalView>,
    fuel: nat,
) -> bool
    decreases fuel, 1int,
{
    match children_of(activity, registry) {
        Err(_) => false,
        Ok(children) => children_ask(children, children.len(), registry, entries, globals, fuel)
            || (expected_children(children, children.len(), registry, entries, globals, fuel) is Ok
            && parameters_read(entries, directives)),
    }
}

/// Whether building the chains of the first `n` children asks an interceptor.
pub open spec fn children_ask(
    children: Seq<ActivityView>,
    n: nat,
    registry: &LoomContext,
    entries: Seq<DirectiveOutline>,
    globals: Seq<ActiveGlobalView>,
    fuel: nat,
) -> bool
    decreases fuel, 0int, n,
{
    if n == 0 || n > children.len() || fuel == 0 {
        false
    } else {
        children_ask(children, (n - 1) as nat, registry, entries, globals, fuel) || (
        expected_children(children, (n - 1) as nat, registry, entries, globals, fuel) is Ok
            && asks_interceptors(children[n - 1], registry, entries, globals, (fuel - 1) as nat))
    }
}

/// An interceptor that is asked for one of the first `k` children is asked
/// for any longer list of them.
pub proof fn children_ask_stays(
    children: Seq<ActivityView>,
    k: nat,
    n: nat,
    registry: &LoomContext,
    entries: Seq<DirectiveOutline>,
    globals: Seq<ActiveGlobalView>,
    fuel: nat,
)
    requires
        k <= n <= children.len(),
        children_ask(children, k, registry, entries, globals, fuel),
    ensures
        children_ask(children, n, registry, entries, globals, fuel),
    decreases n,
{
    if k < n {
        children_ask_stays(children, k, (n - 1) as nat, registry, entries, globals, fuel);
    }
}

/// Whether the interceptors of the calls of a node are asked to read their
/// parameters, and `call` is one of the calls.
pub open spec fn node_asks_for(
    entries: Seq<DirectiveOutline>,
    calls: Seq<DirectiveCallView>,
    call: DirectiveCallView,
) -> bool {
    all_known(entries, calls) && calls.contains(call)
}

/// Whether building the chain of a node asks an interceptor to read the
/// parameters of `call`, at the node or below it, before the build comes to
/// its end or to the first error of the structure.
pub open spec fn asks_for(
    activity: ActivityView,
    registry: &LoomContext,
    entries: Seq<DirectiveOutline>,
    globals: Seq<ActiveGlobalView>,
    fuel: nat,
    call: DirectiveCallView,
) -> bool
    decreases fuel, 2int,
{
    match activity {
        ActivityView::Command(StatementView::Command { directives, .. }) => node_asks_for(
            entries,
            directives,
            call,
        ),
        ActivityView::Command(StatementView::Call { name, args: call_args, .. }) => {
            fuel > 0 && match registry.definition_named(name) {
                None => false,
                Some(definition) => bind_positional(definition@.signature, call_args) is Ok
                    && asks_for(
                    activity_of(definition@),
                    registry,
                    entries,
                    globals,
                    (fuel - 1) as nat,
                    call,
                ),
            }
        },
        ActivityView::Block(block) => match children_of(activity, registry) {
            Err(_) => false,
            Ok(children) => children_ask_for(
                children,
                children.len(),
                registry,
                entries,
                globals,
                fuel,
                call,
            ) || (expected_children(children, children.len(), registry, entries, globals, fuel)
                is Ok && node_asks_for(entries, block.directives, call)),
        },
        ActivityView::Stage(stage) => match children_of(activity, registry) {
            Err(_) => false,
            Ok(children) => children_ask_for(
                children,
                children.len(),
                registry,
                entries,
                globals,
                fuel,
                call,
            ) || (expected_children(children, children.len(), registry, entries, globals, fuel)
                is Ok && node_asks_for(entries, stage.directives, call)),
        },
        ActivityView::Pipeline { directives, .. } => composite_asks_for(
            activity,
            directives,
            registry,
            entries,
            globals,
            fuel,
            call,
        ),
        ActivityView::Schedule { .. } => false,
        ActivityView::Job { directives, .. } => composite_asks_for(
            activity,
            directives,
            registry,
            entries,
            globals,
            fuel,
            call,
        ),
        ActivityView::Definition { directives, .. } => composite_asks_for(
            activity,
            directives,
            registry,
            entries,
            globals,
            fuel,
            call,
        ),
    }
}

/// Whether building the chain of a node with children asks an interceptor
/// to read the parameters of `call`: for a child, or, where all children
/// have their chains, for the node itself.
pub open spec fn composite_asks_for(
    activity: ActivityView,
    directives: Seq<DirectiveCallView>,
    registry: &LoomContext,
    entries: Seq<DirectiveOutline>,
    globals: Seq<ActiveGlobalView>,
    fuel: nat,
    call: DirectiveCallView,
) -> bool
    decreases fuel, 1int,
{
    match children_of(activity, registry) {
        Err(_) => false,
        Ok(children) => children_ask_for(
            children,
            children.len(),
            registry,
            entries,
            globals,
            fuel,
            call,
        ) || (expected_children(children, children.len(), registry, entries, globals, fuel) is Ok
            && node_asks_for(entries, directives, call)),
    }
}

/// Whether building the chains of the first `n` children asks an
/// interceptor to read the parameters of `call`.
pub open spec fn children_ask_for(
    children: Seq<ActivityView>,
    n: nat,
    registry: &LoomContext,
    entries: Seq<DirectiveOutline>,
    globals: Seq<ActiveGlobalView>,
    fuel: nat,
    call: DirectiveCallView,
) -> bool
    decreases fuel, 0int, n,
{
    if n == 0 || n > children.len() || fuel == 0 {
        false
    } else {
        children_ask_for(children, (n - 1) as nat, registry, entries, globals, fuel, call) || (
        expected_children(children, (n - 1) as nat, registry, entries, globals, fuel) is Ok
            && asks_for(children[n - 1], registry, entries, globals, (fuel - 1) as nat, call))
    }
}

/// A call that is read for one of the first `k` children is read for any
/// longer list of them.
pub proof fn children_ask_for_stays(
    children: Seq<ActivityView>,
    k: nat,
    n: nat,
    registry: &LoomContext,
    entries: Seq<DirectiveOutline>,
    globals: Seq<ActiveGlobalView>,
    fuel: nat,
    call: DirectiveCallView,
)
    requires
        k <= n <= children.len(),
        children_ask_for(children, k, registry, entries, globals, fuel, call),
    ensures
        children_ask_for(children, n, registry, entries, globals, fuel, call),
    decreases n,
{
    if k < n {
        children_ask_for_stays(children, k, (n - 1) as nat, registry, entries, globals, fuel, call);
    }
}

/// The error of a result, if it is one.
pub open spec fn failure_of<T>(r: Result<T, LoomError>) -> Option<LoomError> {
    match r {
        Ok(_) => None,
        Err(e) => Some(e),
    }
}

/// The error that is expected, if one is.
pub open spec fn error_of<T>(expected: Result<T, ErrorView>) -> Option<ErrorView> {
    match expected {
        Ok(_) => None,
        Err(e) => Some(e),
    }
}

/// How the interceptors of the calls of one node account for the way the
/// node was read. A failure is the expected error, or it is the error that
/// the interceptor of one of the calls answered. Without a failure, the
/// interceptor of every call that was to be read has read it.
pub open spec fn node_accounted<D: DirectiveInterceptor>(
    registered: DirectiveInterceptorManager<D>,
    loom_context: &LoomContext,
    context: &ExecutionContext,
    failure: Option<LoomError>,
    expected: Option<ErrorView>,
    calls: Seq<DirectiveCallView>,
) -> bool {
    match failure {
        Some(e) => (expected is Some && e@ == expected->0) || exists|call: DirectiveCallView|
            node_asks_for(registered.entries(), calls, call) && #[trigger] registered.reads_of(
                loom_context,
                context,
                call,
                Err(e),
            ),
        None => forall|call: DirectiveCallView| #[trigger]
            node_asks_for(registered.entries(), calls, call) ==> registered.has_read_of(
                loom_context,
                context,
                call,
            ),
    }
}

/// How the interceptors that were asked account for the way a build ended.
/// A failure is the expected error, or it is the error that an interceptor
/// answered when it was asked to read a call of the node or of a node below
/// it. Without a failure, every call that the build was to have read has
/// been read by its interceptor.
pub open spec fn accounted<D: DirectiveInterceptor>(
    registered: DirectiveInterceptorManager<D>,
    loom_context: &LoomContext,
    context: &ExecutionContext,
    failure: Option<LoomError>,
    expected: Option<ErrorView>,
    activity: ActivityView,
    globals: Seq<ActiveGlobalView>,
    fuel: nat,
) -> bool {
    match failure {
        Some(e) => (expected is Some && e@ == expected->0) || exists|call: DirectiveCallView|
            asks_for(activity, loom_context, registered.entries(), globals, fuel, call)
                && #[trigger] registered.reads_of(loom_context, context, call, Err(e)),
        None => forall|call: DirectiveCallView| #[trigger]
            asks_for(activity, loom_context, registered.entries(), globals, fuel, call)
                ==> registered.has_read_of(loom_context, context, call),
    }
}

/// The same for a node with children, by the calls of the node itself.
pub open spec fn composite_accounted<D: DirectiveInterceptor>(
    registered: DirectiveInterceptorManager<D>,
    loom_context: &LoomContext,
    context: &ExecutionContext,
    failure: Option<LoomError>,
    expected: Option<ErrorView>,
    activity: ActivityView,
    directives: Seq<DirectiveCallView>,
    globals: Seq<ActiveGlobalView>,
    fuel: nat,
) -> bool {
    match failure {
        Some(e) => (expected is Some && e@ == expected->0) || exists|call: DirectiveCallView|
            composite_asks_for(
                activity,
                directives,
                loom_context,
                registered.entries(),
                globals,
                fuel,
                call,
            ) && #[trigger] registered.reads_of(loom_context, context, call, Err(e)),
        None => forall|call: DirectiveCallView| #[trigger]
            composite_asks_for(
                activity,
                directives,
                loom_context,
                registered.entries(),
                globals,
                fuel,
                call,
            ) ==> registered.has_read_of(loom_context, context, call),
    }
}

/// The same for the first `n` children of a node.
pub open spec fn children_accounted<D: DirectiveInterceptor>(
    registered: DirectiveInterceptorManager<D>,
    loom_context: &LoomContext,
    context: &ExecutionContext,
    failure: Option<LoomError>,
    expected: Option<ErrorView>,
    children: Seq<ActivityView>,
    n: nat,
    globals: Seq<ActiveGlobalView>,
    fuel: nat,
) -> bool {
    match failure {
        Some(e) => (expected is Some && e@ == expected->0) || exists|call: DirectiveCallView|
            children_ask_for(children, n, loom_context, registered.entries(), globals, fuel, call)
                && #[trigger] registered.reads_of(loom_context, context, call, Err(e)),
        None => forall|call: DirectiveCallView| #[trigger]
            children_ask_for(children, n, loom_context, registered.entries(), globals, fuel, call)
                ==> registered.has_read_of(loom_context, context, call),
    }
}

/// For a job, a definition and a pipeline, what is asked is what is asked
/// of a node with children.
pub proof fn composite_accounts_for_node<D: DirectiveInterceptor>(
    registered: DirectiveInterceptorManager<D>,
    loom_context: &LoomContext,
    context: &ExecutionContext,
    failure: Option<LoomError>,
    expected: Option<ErrorView>,
    activity: ActivityView,
    directives: Seq<DirectiveCallView>,
    globals: Seq<ActiveGlobalView>,
    fuel: nat,
)
    requires
        composite_accounted(
            registered,
            loom_context,
            context,
            failure,
            expected,
            activity,
            directives,
            globals,
            fuel,
        ),
        match activity {
            ActivityView::Job { directives: d, .. } => d == directives,
            ActivityView::Definition { directives: d, .. } => d == directives,
            ActivityView::Pipeline { directives: d, .. } => d == directives,
            _ => false,
        },
    ensures
        accounted(registered, loom_context, context, failure, expected, activity, globals, fuel),
{
    let entries = registered.entries();
    assert forall|call: DirectiveCallView|
        asks_for(activity, loom_context, entries, globals, fuel, call) == composite_asks_for(
            activity,
            directives,
            loom_context,
            entries,
            globals,
            fuel,
            call,
        ) by {}
    match failure {
        Some(e) => {
            if !(expected is Some && e@ == expected->0) {
                let call = choose|call: DirectiveCallView|
                    composite_asks_for(
                        activity,
                        directives,
                        loom_context,
                        entries,
                        globals,
                        fuel,
                        call,
                    ) && #[trigger] registered.reads_of(loom_context, context, call, Err(e));
                assert(asks_for(activity, loom_context, entries, globals, fuel, call));
            }
        },
        None => {
            assert forall|call: DirectiveCallView| #[trigger]
                asks_for(
                    activity,
                    loom_context,
                    entries,
                    globals,
                    fuel,
                    call,
                ) implies registered.has_read_of(loom_context, context, call) by {
                assert(composite_asks_for(
                    activity,
                    directives,
                    loom_context,
                    entries,
                    globals,
                    fuel,
                    call,
                ));
            }
        },
    }
}

/// For a call, what is asked is what is asked of the definition that is
/// called.
pub proof fn called_accounts_for_call<D: DirectiveInterceptor>(
    registered: DirectiveInterceptorManager<D>,
    loom_context: &LoomContext,
    context: &ExecutionContext,
    failure: Option<LoomError>,
    expected: Option<ErrorView>,
    activity: ActivityView,
    called: ActivityView,
    globals: Seq<ActiveGlobalView>,
    fuel: nat,
)
    requires
        fuel > 0,
        accounted(
            registered,
            loom_context,
            context,
            failure,
            expected,
            called,
            globals,
            (fuel - 1) as nat,
        ),
        match activity {
            ActivityView::Command(StatementView::Call { name, args, .. }) => {
                &&& loom_context.definition_named(name) is Some
                &&& bind_positional(loom_context.definition_named(name)->0@.signature, args) is Ok
                &&& called == activity_of(loom_context.definition_named(name)->0@)
            },
            _ => false,
        },
    ensures
        accounted(registered, loom_context, context, failure, expected, activity, globals, fuel),
{
    let entries = registered.entries();
    assert forall|call: DirectiveCallView|
        asks_for(activity, loom_context, entries, globals, fuel, call) == asks_for(
            called,
            loom_context,
            entries,
            globals,
            (fuel - 1) as nat,
            call,
        ) by {}
    match failure {
        Some(e) => {
            if !(expected is Some && e@ == expected->0) {
                let call = choose|call: DirectiveCallView|
                    asks_for(called, loom_context, entries, globals, (fuel - 1) as nat, call)
                        && #[trigger] registered.reads_of(loom_context, context, call, Err(e));
                assert(asks_for(activity, loom_context, entries, globals, fuel, call));
            }
        },
        None => {
            assert forall|call: DirectiveCallView| #[trigger]
                asks_for(
                    activity,
                    loom_context,
                    entries,
                    globals,
                    fuel,
                    call,
                ) implies registered.has_read_of(loom_context, context, call) by {
                assert(asks_for(called, loom_context, entries, globals, (fuel - 1) as nat, call));
            }
        },
    }
}

/// Whether every interceptor that building the chain of a node asks can
/// only succeed in reading its call.
pub open spec fn asked_can_only_read<D: DirectiveInterceptor>(
    registered: DirectiveInterceptorManager<D>,
    loom_context: &LoomContext,
    context: &ExecutionContext,
    activity: ActivityView,
    globals: Seq<ActiveGlobalView>,
    fuel: nat,
) -> bool {
    forall|call: DirectiveCallView, answer: Result<Dictionary<LoomValue>, LoomError>|
        asks_for(activity, loom_context, registered.entries(), globals, fuel, call)
            && #[trigger] registered.reads_of(loom_context, context, call, answer) ==> answer is Ok
}

/// Whether every interceptor that building the chain of a node asks is
/// steady: it reads a call whenever it is asked to, or never.
pub open spec fn asked_are_steady<D: DirectiveInterceptor>(
    registered: DirectiveInterceptorManager<D>,
    loom_context: &LoomContext,
    context: &ExecutionContext,
    activity: ActivityView,
    globals: Seq<ActiveGlobalView>,
    fuel: nat,
) -> bool {
    forall|
        call: DirectiveCallView,
        one: Result<Dictionary<LoomValue>, LoomError>,
        other: Result<Dictionary<LoomValue>, LoomError>,
    |
        asks_for(activity, loom_context, registered.entries(), globals, fuel, call)
            && #[trigger] registered.reads_of(loom_context, context, call, one)
            && #[trigger] registered.reads_of(loom_context, context, call, other) ==> (one is Ok
            <==> other is Ok)
}

/// Interceptors that can never fail to read a call can only succeed where
/// they are asked, and are steady.
pub proof fn never_failing_is_steady<D: DirectiveInterceptor>(
    registered: DirectiveInterceptorManager<D>,
    loom_context: &LoomContext,
    context: &ExecutionContext,
    activity: ActivityView,
    globals: Seq<ActiveGlobalView>,
    fuel: nat,
)
    requires
        registered.never_fails(loom_context),
    ensures
        asked_can_only_read(registered, loom_context, context, activity, globals, fuel),
        asked_are_steady(registered, loom_context, context, activity, globals, fuel),
{
    assert forall|call: DirectiveCallView, answer: Result<Dictionary<LoomValue>, LoomError>| #[trigger]
        registered.reads_of(loom_context, context, call, answer) implies answer is Ok by {
        let c = choose|c: DirectiveCall|
            c@ == call && #[trigger] registered.reads(loom_context, context, &c, answer);
        assert(registered.reads(loom_context, context, &c, answer));
    }
}

/// Where every interceptor that is asked can only succeed, a build ends as
/// the registry and the registrations say: with a chain where one is
/// expected, and with the expected error where an error is.
pub proof fn asked_readers_settle_the_build<D: DirectiveInterceptor>(
    registered: DirectiveInterceptorManager<D>,
    loom_context: &LoomContext,
    context: &ExecutionContext,
    activity: ActivityView,
    globals: Seq<ActiveGlobalView>,
    fuel: nat,
    r: Result<Vec<ActiveInterceptor>, LoomError>,
    expected: Result<Seq<InterceptorView>, ErrorView>,
)
    requires
        chain_agrees(r, expected),
        accounted(
            registered,
            loom_context,
            context,
            failure_of(r),
            error_of(expected),
            activity,
            globals,
            fuel,
        ),
        asked_can_only_read(registered, loom_context, context, activity, globals, fuel),
    ensures
        chain_settled(r, expected),
{
}

/// The arguments that a node is built with do not decide whether its chain
/// is expected, nor which error is.
pub proof fn arguments_do_not_decide(
    activity: ActivityView,
    registry: &LoomContext,
    entries: Seq<DirectiveOutline>,
    globals: Seq<ActiveGlobalView>,
    one: Option<Seq<InputArgView>>,
    other: Option<Seq<InputArgView>>,
    fuel: nat,
)
    ensures
        error_of(expected_chain(activity, registry, entries, globals, one, fuel)) == error_of(
            expected_chain(activity, registry, entries, globals, other, fuel),
        ),
{
    match activity {
        ActivityView::Job { name, directives, .. } => {
            assert(error_of(
                expected_definition_chain(
                    activity,
                    name,
                    directives,
                    registry,
                    entries,
                    globals,
                    one,
                    fuel,
                ),
            ) == error_of(
                expected_definition_chain(
                    activity,
                    name,
                    directives,
                    registry,
                    entries,
                    globals,
                    other,
                    fuel,
                ),
            ));
        },
        ActivityView::Definition { name, directives, .. } => {
            assert(error_of(
                expected_definition_chain(
                    activity,
                    name,
                    directives,
                    registry,
                    entries,
                    globals,
                    one,
                    fuel,
                ),
            ) == error_of(
                expected_definition_chain(
                    activity,
                    name,
                    directives,
                    registry,
                    entries,
                    globals,
                    other,
                    fuel,
                ),
            ));
        },
        ActivityView::Pipeline { name, directives, .. } => {
            assert(error_of(
                expected_definition_chain(
                    activity,
                    name,
                    directives,
                    registry,
                    entries,
                    globals,
                    one,
                    fuel,
                ),
            ) == error_of(
                expected_definition_chain(
                    activity,
                    name,
                    directives,
                    registry,
                    entries,
                    globals,
                    other,
                    fuel,
                ),
            ));
        },
        _ => {},
    }
}

/// Two builds of the chain of one node, from the same registry, the same
/// registered interceptors, the same state of the run and the same global
/// interceptors, succeed together or fail together, whatever the arguments
/// of either, where every interceptor that is asked is steady; and where
/// they succeed with the same arguments they give the same chain, but for
/// the parameters that the directive interceptors read from their calls.
pub proof fn builds_end_alike<D: DirectiveInterceptor>(
    registered: DirectiveInterceptorManager<D>,
    loom_context: &LoomContext,
    context: &ExecutionContext,
    activity: ActivityView,
    globals: Seq<ActiveGlobalView>,
    fuel: nat,
    first: Result<Vec<ActiveInterceptor>, LoomError>,
    first_args: Option<Seq<InputArgView>>,
    second: Result<Vec<ActiveInterceptor>, LoomError>,
    second_args: Option<Seq<InputArgView>>,
)
    requires
        chain_agrees(
            first,
            expected_chain(activity, loom_context, registered.entries(), globals, first_args, fuel),
        ),
        chain_agrees(
            second,
            expected_chain(activity, loom_context, registered.entries(), globals, second_args, fuel),
        ),
        accounted(
            registered,
            loom_context,
            context,
            failure_of(first),
            error_of(
                expected_chain(
                    activity,
                    loom_context,
                    registered.entries(),
                    globals,
                    first_args,
                    fuel,
                ),
            ),
            activity,
            globals,
            fuel,
        ),
        accounted(
            registered,
            loom_context,
            context,
            failure_of(second),
            error_of(
                expected_chain(
                    activity,
                    loom_context,
                    registered.entries(),
                    globals,
                    second_args,
                    fuel,
                ),
            ),
            activity,
            globals,
            fuel,
        ),
        asked_are_steady(registered, loom_context, context, activity, globals, fuel),
    ensures
        first is Ok <==> second is Ok,
        first is Ok && first_args == second_args ==> outline_of_chain(chain_view(first->Ok_0@))
            == outline_of_chain(chain_view(second->Ok_0@)),
{
    let entries = registered.entries();
    arguments_do_not_decide(activity, loom_context, entries, globals, first_args, second_args, fuel);
    let expected = expected_chain(activity, loom_context, entries, globals, first_args, fuel);
    let other = expected_chain(activity, loom_context, entries, globals, second_args, fuel);
    builds_fail_alike(
        registered,
        loom_context,
        context,
        activity,
        globals,
        fuel,
        first,
        second,
        error_of(expected),
    );
    builds_fail_alike(
        registered,
        loom_context,
        context,
        activity,
        globals,
        fuel,
        second,
        first,
        error_of(other),
    );
}

/// Of two such builds, the second does not fail where the first succeeds.
proof fn builds_fail_alike<D: DirectiveInterceptor>(
    registered: DirectiveInterceptorManager<D>,
    loom_context: &LoomContext,
    context: &ExecutionContext,
    activity: ActivityView,
    globals: Seq<ActiveGlobalView>,
    fuel: nat,
    first: Result<Vec<ActiveInterceptor>, LoomError>,
    second: Result<Vec<ActiveInterceptor>, LoomError>,
    expected: Option<ErrorView>,
)
    requires
        expected is Some ==> first is Err,
        accounted(registered, loom_context, context, failure_of(first), expected, activity, globals, fuel),
        accounted(registered, loom_context, context, failure_of(second), expected, activity, globals, fuel),
        asked_are_steady(registered, loom_context, context, activity, globals, fuel),
    ensures
        first is Ok ==> second is Ok,
{
    if first is Ok && second is Err {
        let e = second->Err_0;
        let call = choose|call: DirectiveCallView|
            asks_for(activity, loom_context, registered.entries(), globals, fuel, call)
                && #[trigger] registered.reads_of(loom_context, context, call, Err(e));
        assert(registered.has_read_of(loom_context, context, call));
        let p = choose|p: Dictionary<LoomValue>| #[trigger]
            registered.reads_of(loom_context, context, call, Ok(p));
        assert(registered.reads_of(loom_context, context, call, Ok(p)));
        assert(registered.reads_of(loom_context, context, call, Err(e)));
    }
}

/// Whether the parameters `params` of a directive interceptor called `name`
/// were read from `call`: the call is one of that directive, and the
/// parameters are what its registered interceptor answered when it was
/// asked, in the state `context`, to read the call.
pub open spec fn read_from_call<D: DirectiveInterceptor>(
    registered: DirectiveInterceptorManager<D>,
    loom_context: &LoomContext,
    context: &ExecutionContext,
    call: DirectiveCallView,
    d: ActiveDirectiveView,
) -> bool {
    call.name == d.name && exists|p: Dictionary<LoomValue>|
        view_map(p) == d.params && #[trigger] registered.reads_of(loom_context, context, call, Ok(p))
}

/// Whether a directive interceptor holds parameters that were read from one
/// of the calls of a node.
pub open spec fn read_at_node<D: DirectiveInterceptor>(
    registered: DirectiveInterceptorManager<D>,
    loom_context: &LoomContext,
    context: &ExecutionContext,
    calls: Seq<DirectiveCallView>,
) -> spec_fn(ActiveDirectiveView) -> bool {
    |d: ActiveDirectiveView|
        exists|call: DirectiveCallView|
            node_asks_for(registered.entries(), calls, call) && #[trigger] read_from_call(
                registered,
                loom_context,
                context,
                call,
                d,
            )
}

/// Whether a directive interceptor holds parameters that were read from a
/// call that building the chain of a node asked an interceptor to read, at
/// the node or below it.
pub open spec fn read_below<D: DirectiveInterceptor>(
    registered: DirectiveInterceptorManager<D>,
    loom_context: &LoomContext,
    context: &ExecutionContext,
    activity: ActivityView,
    globals: Seq<ActiveGlobalView>,
    fuel: nat,
) -> spec_fn(ActiveDirectiveView) -> bool {
    |d: ActiveDirectiveView|
        exists|call: DirectiveCallView|
            asks_for(activity, loom_context, registered.entries(), globals, fuel, call)
                && #[trigger] read_from_call(registered, loom_context, context, call, d)
}

/// The same for a node with children, by the calls of the node itself.
pub open spec fn read_in_composite<D: DirectiveInterceptor>(
    registered: DirectiveInterceptorManager<D>,
    loom_context: &LoomContext,
    context: &ExecutionContext,
    activity: ActivityView,
    directives: Seq<DirectiveCallView>,
    globals: Seq<ActiveGlobalView>,
    fuel: nat,
) -> spec_fn(ActiveDirectiveView) -> bool {
    |d: ActiveDirectiveView|
        exists|call: DirectiveCallView|
            composite_asks_for(
                activity,
                directives,
                loom_context,
                registered.entries(),
                globals,
                fuel,
                call,
            ) && #[trigger] read_from_call(registered, loom_context, context, call, d)
}

/// The same for the first `n` children of a node.
pub open spec fn read_among<D: DirectiveInterceptor>(
    registered: DirectiveInterceptorManager<D>,
    loom_context: &LoomContext,
    context: &ExecutionContext,
    children: Seq<ActivityView>,
    n: nat,
    globals: Seq<ActiveGlobalView>,
    fuel: nat,
) -> spec_fn(ActiveDirectiveView) -> bool {
    |d: ActiveDirectiveView|
        exists|call: DirectiveCallView|
            children_ask_for(children, n, loom_context, registered.entries(), globals, fuel, call)
                && #[trigger] read_from_call(registered, loom_context, context, call, d)
}

/// Whether `read` holds of every directive interceptor among the elements
/// and in the chains nested in them.
pub open spec fn all_read(elements: Seq<InterceptorView>, read: spec_fn(ActiveDirectiveView) -> bool) -> bool
    decreases elements,
{
    forall|i: int| 0 <= i < elements.len() ==> element_read(#[trigger] elements[i], read)
}

/// Whether `read` holds of an element that is a directive interceptor, and
/// of every directive interceptor in the chains nested in an executor.
pub open spec fn element_read(element: InterceptorView, read: spec_fn(ActiveDirectiveView) -> bool) -> bool
    decreases element,
{
    match element {
        InterceptorView::Directive(d) => read(d),
        InterceptorView::Executor(e) => match e.executor {
            ExecutorView::Command { .. } => true,
            ExecutorView::SequenceChain { chain } => all_read(chain, read),
            ExecutorView::Sequential { children, .. } => all_read(children, read),
            ExecutorView::Definition { chain, .. } => all_read(chain, read),
        },
        InterceptorView::Global(_) => true,
    }
}

/// A chain that is plugged together holds parameters that were read, where
/// its directive interceptors and the chains nested in its executor do.
pub proof fn plugged_is_read(
    globals: Seq<ActiveGlobalView>,
    directives: Seq<ActiveDirectiveView>,
    terminal: InterceptorView,
    read: spec_fn(ActiveDirectiveView) -> bool,
)
    requires
        forall|i: int| 0 <= i < directives.len() ==> read(#[trigger] directives[i]),
        element_read(terminal, read),
    ensures
        all_read(plugged(globals, directives, terminal), read),
{
    let joined = as_globals(globals) + as_directives(directives);
    let sorted = stable_sort(joined, interceptor_rank());
    let chain = plugged(globals, directives, terminal);
    stable_sort_properties(joined, interceptor_rank());
    assert forall|i: int| 0 <= i < chain.len() implies element_read(#[trigger] chain[i], read) by {
        if i < sorted.len() {
            let x = sorted[i];
            assert(sorted.contains(x));
            sorted_holds_the_same(joined, interceptor_rank(), x);
            let j = choose|j: int| 0 <= j < joined.len() && joined[j] == x;
            if j >= globals.len() {
                assert(x == InterceptorView::Directive(directives[j - globals.len()]));
            } else {
                assert(x == InterceptorView::Global(globals[j]));
            }
        } else {
            assert(chain[i] == terminal);
        }
    }
}

/// What holds of every directive interceptor of a list under one reading
/// holds under any wider one.
pub proof fn all_read_widens(
    elements: Seq<InterceptorView>,
    narrow: spec_fn(ActiveDirectiveView) -> bool,
    wide: spec_fn(ActiveDirectiveView) -> bool,
)
    requires
        all_read(elements, narrow),
        forall|d: ActiveDirectiveView| #[trigger] narrow(d) ==> wide(d),
    ensures
        all_read(elements, wide),
    decreases elements,
{
    assert forall|i: int| 0 <= i < elements.len() implies element_read(
        #[trigger] elements[i],
        wide,
    ) by {
        element_read_widens(elements[i], narrow, wide);
    }
}

/// The same of one element.
pub proof fn element_read_widens(
    element: InterceptorView,
    narrow: spec_fn(ActiveDirectiveView) -> bool,
    wide: spec_fn(ActiveDirectiveView) -> bool,
)
    requires
        element_read(element, narrow),
        forall|d: ActiveDirectiveView| #[trigger] narrow(d) ==> wide(d),
    ensures
        element_read(element, wide),
    decreases element,
{
    match element {
        InterceptorView::Executor(e) => match e.executor {
            ExecutorView::SequenceChain { chain } => all_read_widens(chain, narrow, wide),
            ExecutorView::Sequential { children, .. } => all_read_widens(children, narrow, wide),
            ExecutorView::Definition { chain, .. } => all_read_widens(chain, narrow, wide),
            ExecutorView::Command { .. } => {},
        },
        _ => {},
    }
}

/// Taking the parameters out of the directive interceptors of a chain
/// commutes with plugging the chain together.
pub proof fn outline_of_plugged(
    globals: Seq<ActiveGlobalView>,
    directives: Seq<ActiveDirectiveView>,
    terminal: InterceptorView,
)
    ensures
        outline_of_chain(plugged(globals, directives, terminal)) == plugged(
            globals,
            directives.map_values(|d: ActiveDirectiveView| bare(d)),
            outline_of(terminal),
        ),
{
    let unified = as_globals(globals) + as_directives(directives);
    let f = |v: InterceptorView| outline_of(v);
    assert forall|a: InterceptorView| #[trigger]
        interceptor_rank()(f(a)) == interceptor_rank()(a) by {}
    sorted_prefix_of_mapped(
        unified,
        unified.len(),
        interceptor_rank(),
        f,
        interceptor_rank(),
    );
    let bared = directives.map_values(|d: ActiveDirectiveView| bare(d));
    assert(unified.map_values(f) =~= as_globals(globals) + as_directives(bared));
    let sorted = stable_sort(unified, interceptor_rank());
    assert(outline_of_chain(sorted.push(terminal)) =~= sorted.map_values(f).push(
        outline_of(terminal),
    ));
}

/// The arguments as the contracts see them.
pub open spec fn optional_args(args: Option<&Vec<InputArg>>) -> Option<Seq<InputArgView>> {
    match args {
        Some(a) => Some(views(a@)),
        None => None,
    }
}

/// What building a chain owes: where the expected chain is an error, an
/// error; where the build succeeds, the expected chain, up to the parameters
/// that the directive interceptors read from their calls.
pub open spec fn chain_agrees(
    r: Result<Vec<ActiveInterceptor>, LoomError>,
    expected: Result<Seq<InterceptorView>, ErrorView>,
) -> bool {
    match expected {
        Ok(chain) => r is Ok ==> outline_of_chain(chain_view(r->Ok_0@)) == chain,
        Err(_) => r is Err,
    }
}

/// What building a chain owes where no interceptor is asked to read
/// parameters: success where a chain is expected, and the expected error
/// where an error is.
pub open spec fn chain_settled(
    r: Result<Vec<ActiveInterceptor>, LoomError>,
    expected: Result<Seq<InterceptorView>, ErrorView>,
) -> bool {
    match expected {
        Ok(_) => r is Ok,
        Err(e) => r is Err && r->Err_0@ == e,
    }
}

/// Whether a chain is empty or in order.
pub open spec fn ordered_or_empty(chain: Seq<InterceptorView>) -> bool {
    chain.len() == 0 || well_ordered(chain)
}

/// Whether the chains nested in each element of a list are empty or in
/// order, and so on down.
pub open spec fn all_nested_ordered(elements: Seq<InterceptorView>) -> bool
    decreases elements,
{
    forall|i: int| 0 <= i < elements.len() ==> nested_ordered(#[trigger] elements[i])
}

/// Whether the chains nested in an element are empty or in order, and so on
/// down: the chain of an executor that runs a chain, and the chains that the
/// children of a sequence and of a definition run.
pub open spec fn nested_ordered(element: InterceptorView) -> bool
    decreases element,
{
    match element {
        InterceptorView::Executor(e) => match e.executor {
            ExecutorView::Command { .. } => true,
            ExecutorView::SequenceChain { chain } => ordered_or_empty(chain) && all_nested_ordered(
                chain,
            ),
            ExecutorView::Sequential { children, .. } => all_nested_ordered(children),
            ExecutorView::Definition { chain, .. } => all_nested_ordered(chain),
        },
        _ => true,
    }
}

/// Whether a chain and every chain nested in it is empty or in order.
pub open spec fn ordered_throughout(chain: Seq<InterceptorView>) -> bool {
    ordered_or_empty(chain) && all_nested_ordered(chain)
}

/// A chain that is plugged together around an executor is in order
/// throughout where the chains nested in the executor are.
pub proof fn plugged_is_ordered_throughout(
    globals: Seq<ActiveGlobalView>,
    directives: Seq<ActiveDirectiveView>,
    terminal: InterceptorView,
)
    requires
        terminal is Executor,
        nested_ordered(terminal),
    ensures
        ordered_throughout(plugged(globals, directives, terminal)),
{
    plugged_is_well_ordered(globals, directives, terminal);
    let chain = plugged(globals, directives, terminal);
    assert forall|i: int| 0 <= i < chain.len() implies nested_ordered(#[trigger] chain[i]) by {
        if i < chain.len() - 1 {
            assert(!(chain[i] is Executor));
        } else {
            assert(chain[i] == chain.last());
        }
    }
}

/// Two chains that were built from the same registry, the same registered
/// interceptors, the same node, the same global interceptors and the same
/// arguments are the same but for the parameters that the directive
/// interceptors read from their calls.
pub proof fn building_is_repeatable(
    first: Vec<ActiveInterceptor>,
    second: Vec<ActiveInterceptor>,
    expected: Result<Seq<InterceptorView>, ErrorView>,
)
    requires
        chain_agrees(Ok(first), expected),
        chain_agrees(Ok(second), expected),
    ensures
        outline_of_chain(chain_view(first@)) == outline_of_chain(chain_view(second@)),
{
}

/// Where no interceptor is asked to read parameters, two builds from the
/// same registry, the same registered interceptors, the same node, the same
/// global interceptors and the same arguments succeed together, with the
/// same chain, or fail together, with the same error.
pub proof fn settled_building_is_repeatable(
    first: Result<Vec<ActiveInterceptor>, LoomError>,
    second: Result<Vec<ActiveInterceptor>, LoomError>,
    expected: Result<Seq<InterceptorView>, ErrorView>,
)
    requires
        chain_agrees(first, expected),
        chain_settled(first, expected),
        chain_agrees(second, expected),
        chain_settled(second, expected),
    ensures
        first is Ok <==> second is Ok,
        first is Ok ==> outline_of_chain(chain_view(first->Ok_0@)) == outline_of_chain(
            chain_view(second->Ok_0@),
        ),
        first is Err ==> first->Err_0@ == second->Err_0@,
{
}

} // verus!

//! Building the chain of a node, and the engine that holds the registries.

use vstd::prelude::*;
use vstd::string::*;
use crate::{InputArg, InputArgView};
use crate::ast::{Definition, DirectiveCall, DirectiveCallView, Statement, clone_expressions};
use crate::context::LoomContext;
use crate::dictionary::{Dictionary, clone_value_dictionary, text_map, view_map};
use crate::error::{ErrorView, LoomError};
use crate::interceptor::{
    ActiveInterceptor,
    InterceptorView,
    chain_view,
    chain_view_is_views,
    clone_chain,
};
use crate::interceptor::chain::{
    accounted,
    all_nested_ordered,
    all_read,
    all_read_widens,
    as_directives,
    as_globals,
    asked_can_only_read,
    asked_readers_settle_the_build,
    asks_for,
    asks_interceptors,
    bare,
    called_accounts_for_call,
    chain_agrees,
    chain_settled,
    children_accounted,
    children_ask,
    children_ask_for,
    children_ask_for_stays,
    children_ask_stays,
    composite_accounted,
    composite_accounts_for_node,
    composite_asks,
    composite_asks_for,
    element_read,
    error_of,
    expected_chain,
    expected_children,
    expected_children_stops,
    expected_definition_chain,
    expected_directives,
    failure_of,
    interceptor_rank,
    nested_ordered,
    node_accounted,
    node_asks_for,
    optional_args,
    ordered_throughout,
    outline_of,
    outline_of_chain,
    outline_of_plugged,
    parameters_read,
    plugged,
    plugged_is_ordered_throughout,
    plugged_is_read,
    read_among,
    read_at_node,
    read_below,
    read_from_call,
    read_in_composite,
};
use crate::interceptor::context::ExecutionContext;
use crate::interceptor::directive::{ActiveDirectiveInterceptor, ActiveDirectiveView};
use crate::interceptor::directive::interceptor::DirectiveInterceptor;
use crate::interceptor::directive::manager::{
    DirectiveInterceptorManager,
    DirectiveOutline,
    active_outlines,
    all_known,
    directive_known,
    directive_outcome,
    invalid_directive_priority,
    outlines,
    resolved,
    with_directive,
};
use crate::interceptor::executor::{
    ActiveExecutorInterceptor,
    CommandExecutorInterceptor,
    DefinitionExecutorInterceptor,
    Executor,
    SequenceChainInterceptor,
    SequentialExecutorInterceptor,
    clone_input_args,
};
use crate::interceptor::global::{ActiveGlobalInterceptor, ActiveGlobalView};
use crate::interceptor::global::config::GlobalInterceptorConfig;
use crate::interceptor::global::interceptor::{
    GlobalInterceptor,
    Moment,
    Surroundings,
    TimeOfDay,
    day_start,
    surroundings_of,
};
use crate::interceptor::global::manager::{
    GlobalInterceptorManager,
    RegistrationView,
    active_globals,
    all_moment_free,
    global_not_found,
    global_not_overridable,
    invalid_global_priority,
    moment_free_globals,
    orderly,
    place_of,
    registered,
    registration_outcome,
    with_entry,
};
use crate::interceptor::priority::{
    Prioritized,
    directive_priority,
    global_priority,
    rank_of,
    sort_by_priority,
    sorted_holds_the_same,
    sorted_views,
    stable_sort,
};
use crate::interceptor::run::ChainRun;
use crate::interceptor::scope::{
    ActivityView,
    ExecutionActivity,
    ExecutionScope,
    activity_of,
    children_of,
    scope_of_kind,
};
use crate::text::{nat_text, unsigned_to_text};
use crate::types::{DefinitionKind, Position, optional_text, start_position};
use crate::views::views;
use crate::interceptor::directive::manager::orderly as directives_orderly;
use crate::interceptor::directive::manager::says_of_itself as directive_says_of_itself;
use crate::interceptor::global::manager::says_of_itself as global_says_of_itself;

verus! {

/// How deep calls and blocks may nest while a chain is built.
pub const CALL_DEPTH_LIMIT: usize = 128;

/// Merges the global and the directive interceptors of a node by falling
/// priority and puts the terminal executor behind them.
pub fn plug_and_sort_chain(
    global: &Vec<ActiveGlobalInterceptor>,
    directive: &Vec<ActiveDirectiveInterceptor>,
    target_interceptor: ActiveInterceptor,
) -> (r: Vec<ActiveInterceptor>)
    ensures
        chain_view(r@) == plugged(views(global@), views(directive@), target_interceptor@),
{
    let mut unified: Vec<ActiveInterceptor> = Vec::new();
    let mut i: usize = 0;
    while i < global.len()
        invariant
            i <= global.len(),
            unified.len() == i,
            forall|j: int| 0 <= j < i ==> unified@[j]@ == InterceptorView::Global(global@[j]@),
        decreases global.len() - i,
    {
        unified.push(ActiveInterceptor::Global(global[i].clone()));
        i += 1;
    }
    let mut k: usize = 0;
    while k < directive.len()
        invariant
            k <= directive.len(),
            unified.len() == global.len() + k,
            forall|j: int|
                0 <= j < global.len() ==> unified@[j]@ == InterceptorView::Global(global@[j]@),
            forall|j: int|
                0 <= j < k ==> unified@[global.len() + j]@ == InterceptorView::Directive(
                    directive@[j]@,
                ),
        decreases directive.len() - k,
    {
        unified.push(ActiveInterceptor::Directive(directive[k].clone()));
        k += 1;
    }
    proof {
        assert(views(unified@) =~= as_globals(views(global@)) + as_directives(views(directive@)));
        assert forall|x: ActiveInterceptor| #[trigger]
            interceptor_rank()(x@) == x.rank() by {}
        sorted_views::<ActiveInterceptor>(unified@, interceptor_rank());
    }
    let mut chain = sort_by_priority(unified);
    proof {
        crate::views::views_push(chain@, target_interceptor);
        chain_view_is_views(chain@.push(target_interceptor));
    }
    chain.push(target_interceptor);
    chain
}

/// The engine: the registries of interceptors and the chains built so far.
pub struct InterceptorEngine<D> {
    global_manager: GlobalInterceptorManager,
    directive_manager: DirectiveInterceptorManager<D>,
    chain_cache: Dictionary<Vec<ActiveInterceptor>>,
}

impl<D: DirectiveInterceptor> InterceptorEngine<D> {
    /// The registered directive interceptors, in the order of registration.
    pub closed spec fn directive_entries(&self) -> Seq<DirectiveOutline> {
        self.directive_manager.entries()
    }

    /// The registered global interceptors, in the order of registration.
    pub closed spec fn global_entries(&self) -> Seq<
        RegistrationView,
    > {
        self.global_manager.entries()
    }

    /// What the user has switched on or off.
    pub closed spec fn global_overrides(&self) -> Map<Seq<char>, bool> {
        self.global_manager.overrides()
    }

    /// The registry of the directive interceptors.
    pub closed spec fn directives(&self) -> DirectiveInterceptorManager<D> {
        self.directive_manager
    }

    /// What is registered is what the registry of the directive interceptors
    /// holds.
    pub proof fn directive_entries_are_registered(&self)
        ensures
            self.directive_entries() == self.directives().entries(),
    {
    }

    /// Whether no registered directive interceptor can fail to read the
    /// parameters of a call, whatever the call and the state of the run.
    pub open spec fn reads_every_call(&self, loom_context: &LoomContext) -> bool {
        self.directives().never_fails(loom_context)
    }

    /// The chains that are kept, by their key: the name of the definition,
    /// an underscore and the number of arguments.
    pub closed spec fn cache(&self) -> Map<Seq<char>, Vec<ActiveInterceptor>> {
        self.chain_cache@
    }

    /// The keys of the chains that are kept, in the order in which the
    /// chains were built.
    pub closed spec fn cached_keys(&self) -> Seq<Seq<char>> {
        self.chain_cache.keys()
    }

    /// A chain is kept under a key exactly if the key is among the keys.
    pub proof fn cache_holds_its_keys(&self)
        ensures
            forall|key: Seq<char>| self.cache().contains_key(key) <==> self.cached_keys().contains(key),
    {
    }

    fn directives_for(
        &self,
        loom_context: &LoomContext,
        context: &ExecutionContext,
        directives: &Vec<DirectiveCall>,
    ) -> (r: Result<Vec<ActiveDirectiveInterceptor>, LoomError>)
        ensures
            match expected_directives(self.directive_entries(), views(directives@)) {
                Ok(d) => r is Ok ==> views(r->Ok_0@).map_values(|x: ActiveDirectiveView| bare(x))
                    == d,
                Err(e) => r is Err && r->Err_0@ == e,
            },
            (self.reads_every_call(loom_context) || !parameters_read(
                self.directive_entries(),
                views(directives@),
            )) && expected_directives(self.directive_entries(), views(directives@)) is Ok ==> r is Ok,
            node_accounted(
                self.directives(),
                loom_context,
                context,
                failure_of(r),
                error_of(expected_directives(self.directive_entries(), views(directives@))),
                views(directives@),
            ),
            r is Ok ==> forall|i: int|
                0 <= i < r->Ok_0@.len() ==> read_at_node(
                    self.directives(),
                    loom_context,
                    context,
                    views(directives@),
                )(#[trigger] views(r->Ok_0@)[i]),
    {
        let r = self.directive_manager.build_active(loom_context, context, directives);
        proof {
            let calls = views(directives@);
            let entries = self.directive_manager.entries();
            if r is Ok {
                let read = choose|read: Seq<ActiveDirectiveInterceptor>| #[trigger]
                    self.directive_manager.read_from(loom_context, context, directives@, read)
                        && r->Ok_0@ == stable_sort(read, rank_of::<ActiveDirectiveInterceptor>());
                assert forall|i: int| 0 <= i < r->Ok_0@.len() implies read_at_node(
                    self.directives(),
                    loom_context,
                    context,
                    calls,
                )(#[trigger] views(r->Ok_0@)[i]) by {
                    let x = r->Ok_0@[i];
                    assert(r->Ok_0@.contains(x));
                    sorted_holds_the_same(read, rank_of::<ActiveDirectiveInterceptor>(), x);
                    let k = choose|k: int| 0 <= k < read.len() && read[k] == x;
                    assert(calls[k] == directives@[k]@);
                    assert(read[k]@.outline() == resolved(entries, calls)[k]);
                    assert(self.directive_manager.reads(
                        loom_context,
                        context,
                        &directives@[k],
                        Ok(read[k].params),
                    ));
                    assert(self.directive_manager.reads_of(
                        loom_context,
                        context,
                        calls[k],
                        Ok(read[k].params),
                    ));
                    assert(views(r->Ok_0@)[i] == x@);
                    assert(calls.contains(calls[k]));
                    assert(node_asks_for(entries, calls, calls[k]));
                    assert(read_from_call(self.directives(), loom_context, context, calls[k], x@));
                }
            }
            if r is Err && all_known(entries, calls) {
                let k = choose|k: int|
                    0 <= k < directives@.len() && #[trigger] self.directive_manager.reads_of(
                        loom_context,
                        context,
                        calls[k],
                        Err(r->Err_0),
                    );
                assert(calls.contains(calls[k]));
                assert(node_asks_for(entries, calls, calls[k]));
            }
            if r is Ok {
                assert forall|call: DirectiveCallView| #[trigger]
                    node_asks_for(entries, calls, call) implies self.directive_manager.has_read_of(
                    loom_context,
                    context,
                    call,
                ) by {
                    let k = choose|k: int| 0 <= k < calls.len() && calls[k] == call;
                    assert(self.directive_manager.has_read_of(loom_context, context, calls[k]));
                }
            }
        }
        proof {
            if r is Ok && all_known(self.directive_entries(), views(directives@)) {
                let got = views(r->Ok_0@);
                let sorted = active_outlines(self.directive_entries(), views(directives@));
                assert(outlines(got) == sorted);
                assert forall|i: int| 0 <= i < got.len() implies bare(got[i]) == (ActiveDirectiveView {
                    params: Map::empty(),
                    name: sorted[i].name,
                    priority: sorted[i].priority,
                    need_chain: sorted[i].need_chain,
                }) by {
                    assert(outlines(got)[i] == got[i].outline());
                }
                assert(got.map_values(|x: ActiveDirectiveView| bare(x))
                    =~= expected_directives(
                    self.directive_entries(),
                    views(directives@),
                )->Ok_0);
            }
        }
        r
    }

    /// Builds the chain of a node. `global_interceptors` are the global
    /// interceptors that take part in the run; `args` are the arguments that
    /// the definition of the node is called with.
    ///
    /// The chain is the expected one, up to the parameters that the
    /// directive interceptors read. How the build ends is accounted for
    /// ([`accounted`]): it fails with the expected error, or with the error
    /// that an interceptor answered to a call that it was asked to read; and
    /// where it succeeds, every call that was to be read has been read. So
    /// it ends as expected where no interceptor is asked, where none can
    /// fail, and where those that are asked can only succeed.
    pub fn build_target_chain(
        &self,
        loom_context: &LoomContext,
        context: &ExecutionContext,
        execution_target: &ExecutionActivity,
        global_interceptors: &Vec<ActiveGlobalInterceptor>,
        args: Option<&Vec<InputArg>>,
    ) -> (r: Result<Vec<ActiveInterceptor>, LoomError>)
        ensures
            chain_agrees(
                r,
                expected_chain(
                    execution_target@,
                    loom_context,
                    self.directive_entries(),
                    views(global_interceptors@),
                    optional_args(args),
                    CALL_DEPTH_LIMIT as nat,
                ),
            ),
            r is Ok ==> ordered_throughout(chain_view(r->Ok_0@)),
            r is Ok ==> all_read(
                chain_view(r->Ok_0@),
                read_below(
                    self.directives(),
                    loom_context,
                    context,
                    execution_target@,
                    views(global_interceptors@),
                    CALL_DEPTH_LIMIT as nat,
                ),
            ),
            self.reads_every_call(loom_context) || !asks_interceptors(
                execution_target@,
                loom_context,
                self.directive_entries(),
                views(global_interceptors@),
                CALL_DEPTH_LIMIT as nat,
            ) ==> chain_settled(
                r,
                expected_chain(
                    execution_target@,
                    loom_context,
                    self.directive_entries(),
                    views(global_interceptors@),
                    optional_args(args),
                    CALL_DEPTH_LIMIT as nat,
                ),
            ),
            accounted(
                self.directives(),
                loom_context,
                context,
                failure_of(r),
                error_of(
                    expected_chain(
                        execution_target@,
                        loom_context,
                        self.directive_entries(),
                        views(global_interceptors@),
                        optional_args(args),
                        CALL_DEPTH_LIMIT as nat,
                    ),
                ),
                execution_target@,
                views(global_interceptors@),
                CALL_DEPTH_LIMIT as nat,
            ),
            asked_can_only_read(
                self.directives(),
                loom_context,
                context,
                execution_target@,
                views(global_interceptors@),
                CALL_DEPTH_LIMIT as nat,
            ) ==> chain_settled(
                r,
                expected_chain(
                    execution_target@,
                    loom_context,
                    self.directive_entries(),
                    views(global_interceptors@),
                    optional_args(args),
                    CALL_DEPTH_LIMIT as nat,
                ),
            ),
    {
        let r = self.build_within(
            loom_context,
            context,
            execution_target,
            global_interceptors,
            args,
            CALL_DEPTH_LIMIT,
        );
        proof {
            if asked_can_only_read(
                self.directives(),
                loom_context,
                context,
                execution_target@,
                views(global_interceptors@),
                CALL_DEPTH_LIMIT as nat,
            ) {
                asked_readers_settle_the_build(
                    self.directives(),
                    loom_context,
                    context,
                    execution_target@,
                    views(global_interceptors@),
                    CALL_DEPTH_LIMIT as nat,
                    r,
                    expected_chain(
                        execution_target@,
                        loom_context,
                        self.directive_entries(),
                        views(global_interceptors@),
                        optional_args(args),
                        CALL_DEPTH_LIMIT as nat,
                    ),
                );
            }
        }
        r
    }

    fn build_within(
        &self,
        loom_context: &LoomContext,
        context: &ExecutionContext,
        execution_target: &ExecutionActivity,
        global_interceptors: &Vec<ActiveGlobalInterceptor>,
        args: Option<&Vec<InputArg>>,
        depth: usize,
    ) -> (r: Result<Vec<ActiveInterceptor>, LoomError>)
        ensures
            chain_agrees(
                r,
                expected_chain(
                    execution_target@,
                    loom_context,
                    self.directive_entries(),
                    views(global_interceptors@),
                    optional_args(args),
                    depth as nat,
                ),
            ),
            r is Ok ==> ordered_throughout(chain_view(r->Ok_0@)),
            r is Ok ==> all_read(
                chain_view(r->Ok_0@),
                read_below(
                    self.directives(),
                    loom_context,
                    context,
                    execution_target@,
                    views(global_interceptors@),
                    depth as nat,
                ),
            ),
            self.reads_every_call(loom_context) || !asks_interceptors(
                execution_target@,
                loom_context,
                self.directive_entries(),
                views(global_interceptors@),
                depth as nat,
            ) ==> chain_settled(
                r,
                expected_chain(
                    execution_target@,
                    loom_context,
                    self.directive_entries(),
                    views(global_interceptors@),
                    optional_args(args),
                    depth as nat,
                ),
            ),
            accounted(
                self.directives(),
                loom_context,
                context,
                failure_of(r),
                error_of(
                    expected_chain(
                        execution_target@,
                        loom_context,
                        self.directive_entries(),
                        views(global_interceptors@),
                        optional_args(args),
                        depth as nat,
                    ),
                ),
                execution_target@,
                views(global_interceptors@),
                depth as nat,
            ),
        decreases depth, 2int,
    {
        let ghost entries = self.directive_entries();
        let ghost globals = views(global_interceptors@);
        match execution_target {
            ExecutionActivity::Command(Statement::Command { parts, directives }) => {
                let active = match self.directives_for(loom_context, context, directives) {
                    Ok(a) => a,
                    Err(e) => {
                        return Err(e);
                    },
                };
                let terminal = ActiveInterceptor::Executor(
                    ActiveExecutorInterceptor::new(
                        Executor::Command(
                            CommandExecutorInterceptor(clone_expressions(parts)),
                        ),
                    ),
                );
                proof {
                    outline_of_plugged(globals, views(active@), terminal@);
                    plugged_is_ordered_throughout(globals, views(active@), terminal@);
                    let here = read_below(
                        self.directives(),
                        loom_context,
                        context,
                        execution_target@,
                        globals,
                        depth as nat,
                    );
                    assert forall|i: int| 0 <= i < active@.len() implies here(
                        #[trigger] views(active@)[i],
                    ) by {
                        let d = views(active@)[i];
                        let call = choose|call: DirectiveCallView|
                            node_asks_for(entries, views(directives@), call)
                                && #[trigger] read_from_call(
                                self.directives(),
                                loom_context,
                                context,
                                call,
                                d,
                            );
                        assert(asks_for(
                            execution_target@,
                            loom_context,
                            entries,
                            globals,
                            depth as nat,
                            call,
                        ));
                    }
                    plugged_is_read(globals, views(active@), terminal@, here);
                    assert forall|call: DirectiveCallView| #[trigger]
                        asks_for(
                            execution_target@,
                            loom_context,
                            entries,
                            globals,
                            depth as nat,
                            call,
                        ) implies self.directives().has_read_of(loom_context, context, call) by {
                        assert(node_asks_for(entries, views(directives@), call));
                    }
                }
                Ok(plug_and_sort_chain(global_interceptors, &active, terminal))
            },
            ExecutionActivity::Command(Statement::Call { name, args: call_args, .. }) => {
                if depth == 0 {
                    return Err(
                        LoomError::execution("Call depth limit exceeded while building the chain"),
                    );
                }
                let definition = match loom_context.find_definition(name.as_str()) {
                    Some(d) => d,
                    None => {
                        return Err(
                            LoomError::definition_resolution(name.as_str(), "Cannot resolve the call"),
                        );
                    },
                };
                let activity = ExecutionActivity::from_definition(definition);
                let bound = match definition.signature.positional_arg_from_expression(call_args) {
                    Ok(b) => b,
                    Err(e) => {
                        return Err(e);
                    },
                };
                let r = self.build_within(
                    loom_context,
                    context,
                    &activity,
                    global_interceptors,
                    Some(&bound),
                    depth - 1,
                );
                proof {
                    called_accounts_for_call(
                        self.directives(),
                        loom_context,
                        context,
                        failure_of(r),
                        error_of(
                            expected_chain(
                                activity@,
                                loom_context,
                                entries,
                                globals,
                                Some(views(bound@)),
                                (depth - 1) as nat,
                            ),
                        ),
                        execution_target@,
                        activity@,
                        globals,
                        depth as nat,
                    );
                    if r is Ok {
                        let narrow = read_below(
                            self.directives(),
                            loom_context,
                            context,
                            activity@,
                            globals,
                            (depth - 1) as nat,
                        );
                        let wide = read_below(
                            self.directives(),
                            loom_context,
                            context,
                            execution_target@,
                            globals,
                            depth as nat,
                        );
                        assert forall|d: ActiveDirectiveView| #[trigger] narrow(d) implies wide(d) by {
                            let call = choose|call: DirectiveCallView|
                                asks_for(
                                    activity@,
                                    loom_context,
                                    entries,
                                    globals,
                                    (depth - 1) as nat,
                                    call,
                                ) && #[trigger] read_from_call(
                                    self.directives(),
                                    loom_context,
                                    context,
                                    call,
                                    d,
                                );
                            assert(asks_for(
                                execution_target@,
                                loom_context,
                                entries,
                                globals,
                                depth as nat,
                                call,
                            ));
                        }
                        all_read_widens(chain_view(r->Ok_0@), narrow, wide);
                    }
                }
                r
            },
            ExecutionActivity::Block(block) => {
                let targets = match self.build_target_efficiently(
                    loom_context,
                    context,
                    execution_target,
                    global_interceptors,
                    depth,
                ) {
                    Ok(t) => t,
                    Err(e) => {
                        return Err(e);
                    },
                };
                let active = match self.directives_for(loom_context, context, &block.directives) {
                    Ok(a) => a,
                    Err(e) => {
                        return Err(e);
                    },
                };
                let ghost inner = chain_view(targets@);
                let terminal = ActiveInterceptor::Executor(
                    ActiveExecutorInterceptor::new(
                        Executor::Sequential(
                            SequentialExecutorInterceptor(targets, String::from_str("Block")),
                        ),
                    ),
                );
                proof {
                    outline_of_plugged(globals, views(active@), terminal@);
                    plugged_is_ordered_throughout(globals, views(active@), terminal@);
                    let kids = children_of(execution_target@, loom_context)->Ok_0;
                    let here = read_below(
                        self.directives(),
                        loom_context,
                        context,
                        execution_target@,
                        globals,
                        depth as nat,
                    );
                    let among = read_among(
                        self.directives(),
                        loom_context,
                        context,
                        kids,
                        kids.len(),
                        globals,
                        depth as nat,
                    );
                    assert forall|d: ActiveDirectiveView| #[trigger] among(d) implies here(d) by {
                        let call = choose|call: DirectiveCallView|
                            children_ask_for(
                                kids,
                                kids.len(),
                                loom_context,
                                entries,
                                globals,
                                depth as nat,
                                call,
                            ) && #[trigger] read_from_call(
                                self.directives(),
                                loom_context,
                                context,
                                call,
                                d,
                            );
                        assert(asks_for(
                            execution_target@,
                            loom_context,
                            entries,
                            globals,
                            depth as nat,
                            call,
                        ));
                    }
                    all_read_widens(inner, among, here);
                    assert forall|i: int| 0 <= i < active@.len() implies here(
                        #[trigger] views(active@)[i],
                    ) by {
                        let d = views(active@)[i];
                        let call = choose|call: DirectiveCallView|
                            node_asks_for(entries, views(block.directives@), call)
                                && #[trigger] read_from_call(
                                self.directives(),
                                loom_context,
                                context,
                                call,
                                d,
                            );
                        assert(asks_for(
                            execution_target@,
                            loom_context,
                            entries,
                            globals,
                            depth as nat,
                            call,
                        ));
                    }
                    plugged_is_read(globals, views(active@), terminal@, here);
                    assert forall|call: DirectiveCallView| #[trigger]
                        asks_for(
                            execution_target@,
                            loom_context,
                            entries,
                            globals,
                            depth as nat,
                            call,
                        ) implies self.directives().has_read_of(loom_context, context, call) by {
                        if !children_ask_for(
                            kids,
                            kids.len(),
                            loom_context,
                            entries,
                            globals,
                            depth as nat,
                            call,
                        ) {
                            assert(node_asks_for(entries, views(block.directives@), call));
                        }
                    }
                }
                Ok(plug_and_sort_chain(global_interceptors, &active, terminal))
            },
            ExecutionActivity::Stage(stage) => {
                let targets = match self.build_target_efficiently(
                    loom_context,
                    context,
                    execution_target,
                    global_interceptors,
                    depth,
                ) {
                    Ok(t) => t,
                    Err(e) => {
                        return Err(e);
                    },
                };
                let active = match self.directives_for(loom_context, context, &stage.directives) {
                    Ok(a) => a,
                    Err(e) => {
                        return Err(e);
                    },
                };
                let ghost inner = chain_view(targets@);
                let terminal = ActiveInterceptor::Executor(
                    ActiveExecutorInterceptor::new(
                        Executor::Sequential(
                            SequentialExecutorInterceptor(targets, String::from_str("Stage")),
                        ),
                    ),
                );
                proof {
                    outline_of_plugged(globals, views(active@), terminal@);
                    plugged_is_ordered_throughout(globals, views(active@), terminal@);
                    let kids = children_of(execution_target@, loom_context)->Ok_0;
                    let here = read_below(
                        self.directives(),
                        loom_context,
                        context,
                        execution_target@,
                        globals,
                        depth as nat,
                    );
                    let among = read_among(
                        self.directives(),
                        loom_context,
                        context,
                        kids,
                        kids.len(),
                        globals,
                        depth as nat,
                    );
                    assert forall|d: ActiveDirectiveView| #[trigger] among(d) implies here(d) by {
                        let call = choose|call: DirectiveCallView|
                            children_ask_for(
                                kids,
                                kids.len(),
                                loom_context,
                                entries,
                                globals,
                                depth as nat,
                                call,
                            ) && #[trigger] read_from_call(
                                self.directives(),
                                loom_context,
                                context,
                                call,
                                d,
                            );
                        assert(asks_for(
                            execution_target@,
                            loom_context,
                            entries,
                            globals,
                            depth as nat,
                            call,
                        ));
                    }
                    all_read_widens(inner, among, here);
                    assert forall|i: int| 0 <= i < active@.len() implies here(
                        #[trigger] views(active@)[i],
                    ) by {
                        let d = views(active@)[i];
                        let call = choose|call: DirectiveCallView|
                            node_asks_for(entries, views(stage.directives@), call)
                                && #[trigger] read_from_call(
                                self.directives(),
                                loom_context,
                                context,
                                call,
                                d,
                            );
                        assert(asks_for(
                            execution_target@,
                            loom_context,
                            entries,
                            globals,
                            depth as nat,
                            call,
                        ));
                    }
                    plugged_is_read(globals, views(active@), terminal@, here);
                    assert forall|call: DirectiveCallView| #[trigger]
                        asks_for(
                            execution_target@,
                            loom_context,
                            entries,
                            globals,
                            depth as nat,
                            call,
                        ) implies self.directives().has_read_of(loom_context, context, call) by {
                        if !children_ask_for(
                            kids,
                            kids.len(),
                            loom_context,
                            entries,
                            globals,
                            depth as nat,
                            call,
                        ) {
                            assert(node_asks_for(entries, views(stage.directives@), call));
                        }
                    }
                }
                Ok(plug_and_sort_chain(global_interceptors, &active, terminal))
            },
            ExecutionActivity::Pipeline { name, directives, .. } => {
                let r = self.build_definition(
                    loom_context,
                    context,
                    execution_target,
                    name,
                    directives,
                    global_interceptors,
                    args,
                    depth,
                );
                proof {
                    composite_accounts_for_node(
                        self.directives(),
                        loom_context,
                        context,
                        failure_of(r),
                        error_of(
                            expected_definition_chain(
                                execution_target@,
                                name@,
                                views(directives@),
                                loom_context,
                                entries,
                                globals,
                                optional_args(args),
                                depth as nat,
                            ),
                        ),
                        execution_target@,
                        views(directives@),
                        globals,
                        depth as nat,
                    );
                    if r is Ok {
                        let narrow = read_in_composite(
                            self.directives(),
                            loom_context,
                            context,
                            execution_target@,
                            views(directives@),
                            globals,
                            depth as nat,
                        );
                        let wide = read_below(
                            self.directives(),
                            loom_context,
                            context,
                            execution_target@,
                            globals,
                            depth as nat,
                        );
                        assert forall|d: ActiveDirectiveView| #[trigger] narrow(d) implies wide(d) by {
                            let call = choose|call: DirectiveCallView|
                                composite_asks_for(
                                    execution_target@,
                                    views(directives@),
                                    loom_context,
                                    entries,
                                    globals,
                                    depth as nat,
                                    call,
                                ) && #[trigger] read_from_call(
                                    self.directives(),
                                    loom_context,
                                    context,
                                    call,
                                    d,
                                );
                            assert(asks_for(
                                execution_target@,
                                loom_context,
                                entries,
                                globals,
                                depth as nat,
                                call,
                            ));
                        }
                        all_read_widens(chain_view(r->Ok_0@), narrow, wide);
                    }
                }
                r
            },
            ExecutionActivity::Schedule { .. } => {
                let out: Vec<ActiveInterceptor> = Vec::new();
                assert(outline_of_chain(chain_view(out@)) =~= Seq::<InterceptorView>::empty());
                Ok(out)
            },
            ExecutionActivity::Job { name, directives, .. } => {
                let r = self.build_definition(
                    loom_context,
                    context,
                    execution_target,
                    name,
                    directives,
                    global_interceptors,
                    args,
                    depth,
                );
                proof {
                    composite_accounts_for_node(
                        self.directives(),
                        loom_context,
                        context,
                        failure_of(r),
                        error_of(
                            expected_definition_chain(
                                execution_target@,
                                name@,
                                views(directives@),
                                loom_context,
                                entries,
                                globals,
                                optional_args(args),
                                depth as nat,
                            ),
                        ),
                        execution_target@,
                        views(directives@),
                        globals,
                        depth as nat,
                    );
                    if r is Ok {
                        let narrow = read_in_composite(
                            self.directives(),
                            loom_context,
                            context,
                            execution_target@,
                            views(directives@),
                            globals,
                            depth as nat,
                        );
                        let wide = read_below(
                            self.directives(),
                            loom_context,
                            context,
                            execution_target@,
                            globals,
                            depth as nat,
                        );
                        assert forall|d: ActiveDirectiveView| #[trigger] narrow(d) implies wide(d) by {
                            let call = choose|call: DirectiveCallView|
                                composite_asks_for(
                                    execution_target@,
                                    views(directives@),
                                    loom_context,
                                    entries,
                                    globals,
                                    depth as nat,
                                    call,
                                ) && #[trigger] read_from_call(
                                    self.directives(),
                                    loom_context,
                                    context,
                                    call,
                                    d,
                                );
                            assert(asks_for(
                                execution_target@,
                                loom_context,
                                entries,
                                globals,
                                depth as nat,
                                call,
                            ));
                        }
                        all_read_widens(chain_view(r->Ok_0@), narrow, wide);
                    }
                }
                r
            },
            ExecutionActivity::Definition { name, directives, .. } => {
                let r = self.build_definition(
                    loom_context,
                    context,
                    execution_target,
                    name,
                    directives,
                    global_interceptors,
                    args,
                    depth,
                );
                proof {
                    composite_accounts_for_node(
                        self.directives(),
                        loom_context,
                        context,
                        failure_of(r),
                        error_of(
                            expected_definition_chain(
                                execution_target@,
                                name@,
                                views(directives@),
                                loom_context,
                                entries,
                                globals,
                                optional_args(args),
                                depth as nat,
                            ),
                        ),
                        execution_target@,
                        views(directives@),
                        globals,
                        depth as nat,
                    );
                    if r is Ok {
                        let narrow = read_in_composite(
                            self.directives(),
                            loom_context,
                            context,
                            execution_target@,
                            views(directives@),
                            globals,
                            depth as nat,
                        );
                        let wide = read_below(
                            self.directives(),
                            loom_context,
                            context,
                            execution_target@,
                            globals,
                            depth as nat,
                        );
                        assert forall|d: ActiveDirectiveView| #[trigger] narrow(d) implies wide(d) by {
                            let call = choose|call: DirectiveCallView|
                                composite_asks_for(
                                    execution_target@,
                                    views(directives@),
                                    loom_context,
                                    entries,
                                    globals,
                                    depth as nat,
                                    call,
                                ) && #[trigger] read_from_call(
                                    self.directives(),
                                    loom_context,
                                    context,
                                    call,
                                    d,
                                );
                            assert(asks_for(
                                execution_target@,
                                loom_context,
                                entries,
                                globals,
                                depth as nat,
                                call,
                            ));
                        }
                        all_read_widens(chain_view(r->Ok_0@), narrow, wide);
                    }
                }
                r
            },
        }
    }

    fn build_definition(
        &self,
        loom_context: &LoomContext,
        context: &ExecutionContext,
        execution_target: &ExecutionActivity,
        name: &String,
        directives: &Vec<DirectiveCall>,
        global_interceptors: &Vec<ActiveGlobalInterceptor>,
        args: Option<&Vec<InputArg>>,
        depth: usize,
    ) -> (r: Result<Vec<ActiveInterceptor>, LoomError>)
        ensures
            chain_agrees(
                r,
                expected_definition_chain(
                    execution_target@,
                    name@,
                    views(directives@),
                    loom_context,
                    self.directive_entries(),
                    views(global_interceptors@),
                    optional_args(args),
                    depth as nat,
                ),
            ),
            r is Ok ==> ordered_throughout(chain_view(r->Ok_0@)),
            r is Ok ==> all_read(
                chain_view(r->Ok_0@),
                read_in_composite(
                    self.directives(),
                    loom_context,
                    context,
                    execution_target@,
                    views(directives@),
                    views(global_interceptors@),
                    depth as nat,
                ),
            ),
            self.reads_every_call(loom_context) || !composite_asks(
                execution_target@,
                views(directives@),
                loom_context,
                self.directive_entries(),
                views(global_interceptors@),
                depth as nat,
            ) ==> chain_settled(
                r,
                expected_definition_chain(
                    execution_target@,
                    name@,
                    views(directives@),
                    loom_context,
                    self.directive_entries(),
                    views(global_interceptors@),
                    optional_args(args),
                    depth as nat,
                ),
            ),
            composite_accounted(
                self.directives(),
                loom_context,
                context,
                failure_of(r),
                error_of(
                    expected_definition_chain(
                        execution_target@,
                        name@,
                        views(directives@),
                        loom_context,
                        self.directive_entries(),
                        views(global_interceptors@),
                        optional_args(args),
                        depth as nat,
                    ),
                ),
                execution_target@,
                views(directives@),
                views(global_interceptors@),
                depth as nat,
            ),
        decreases depth, 1int,
    {
        let ghost globals = views(global_interceptors@);
        let targets = match self.build_target_efficiently(
            loom_context,
            context,
            execution_target,
            global_interceptors,
            depth,
        ) {
            Ok(t) => t,
            Err(e) => {
                return Err(e);
            },
        };
        let active = match self.directives_for(loom_context, context, directives) {
            Ok(a) => a,
            Err(e) => {
                return Err(e);
            },
        };
        let bound = match args {
            Some(a) => clone_input_args(a),
            None => {
                let none: Vec<InputArg> = Vec::new();
                assert(views(none@) =~= Seq::<InputArgView>::empty());
                none
            },
        };
        let ghost inner = chain_view(targets@);
        let terminal = ActiveInterceptor::Executor(
            ActiveExecutorInterceptor::new(
                Executor::Definition(DefinitionExecutorInterceptor(name.clone(), targets, bound)),
            ),
        );
        proof {
            outline_of_plugged(globals, views(active@), terminal@);
            plugged_is_ordered_throughout(globals, views(active@), terminal@);
            let entries = self.directive_entries();
            let kids = children_of(execution_target@, loom_context)->Ok_0;
            let here = read_in_composite(
                self.directives(),
                loom_context,
                context,
                execution_target@,
                views(directives@),
                globals,
                depth as nat,
            );
            let among = read_among(
                self.directives(),
                loom_context,
                context,
                kids,
                kids.len(),
                globals,
                depth as nat,
            );
            assert forall|d: ActiveDirectiveView| #[trigger] among(d) implies here(d) by {
                let call = choose|call: DirectiveCallView|
                    children_ask_for(
                        kids,
                        kids.len(),
                        loom_context,
                        entries,
                        globals,
                        depth as nat,
                        call,
                    ) && #[trigger] read_from_call(
                        self.directives(),
                        loom_context,
                        context,
                        call,
                        d,
                    );
                assert(composite_asks_for(
                    execution_target@,
                    views(directives@),
                    loom_context,
                    entries,
                    globals,
                    depth as nat,
                    call,
                ));
            }
            all_read_widens(inner, among, here);
            assert forall|i: int| 0 <= i < active@.len() implies here(
                #[trigger] views(active@)[i],
            ) by {
                let d = views(active@)[i];
                let call = choose|call: DirectiveCallView|
                    node_asks_for(entries, views(directives@), call) && #[trigger] read_from_call(
                        self.directives(),
                        loom_context,
                        context,
                        call,
                        d,
                    );
                assert(composite_asks_for(
                    execution_target@,
                    views(directives@),
                    loom_context,
                    entries,
                    globals,
                    depth as nat,
                    call,
                ));
            }
            plugged_is_read(globals, views(active@), terminal@, here);
            assert forall|call: DirectiveCallView| #[trigger]
                composite_asks_for(
                    execution_target@,
                    views(directives@),
                    loom_context,
                    entries,
                    globals,
                    depth as nat,
                    call,
                ) implies self.directives().has_read_of(loom_context, context, call) by {
                if !children_ask_for(
                    kids,
                    kids.len(),
                    loom_context,
                    entries,
                    globals,
                    depth as nat,
                    call,
                ) {
                    assert(node_asks_for(entries, views(directives@), call));
                }
            }
        }
        Ok(plug_and_sort_chain(global_interceptors, &active, terminal))
    }

    /// The chains of the children of a node, each wrapped as one executor.
    fn build_target_efficiently(
        &self,
        loom_context: &LoomContext,
        context: &ExecutionContext,
        execution_target: &ExecutionActivity,
        global_interceptors: &Vec<ActiveGlobalInterceptor>,
        depth: usize,
    ) -> (r: Result<Vec<ActiveInterceptor>, LoomError>)
        ensures
            match children_of(execution_target@, loom_context) {
                Err(_) => r is Err,
                Ok(children) => chain_agrees(
                    r,
                    expected_children(
                        children,
                        children.len(),
                        loom_context,
                        self.directive_entries(),
                        views(global_interceptors@),
                        depth as nat,
                    ),
                ),
            },
            r is Ok ==> all_nested_ordered(chain_view(r->Ok_0@)),
            match children_of(execution_target@, loom_context) {
                Err(_) => true,
                Ok(children) => r is Ok ==> all_read(
                    chain_view(r->Ok_0@),
                    read_among(
                        self.directives(),
                        loom_context,
                        context,
                        children,
                        children.len(),
                        views(global_interceptors@),
                        depth as nat,
                    ),
                ),
            },
            match children_of(execution_target@, loom_context) {
                Err(e) => r is Err && r->Err_0@ == e,
                Ok(children) => self.reads_every_call(loom_context) || !children_ask(
                    children,
                    children.len(),
                    loom_context,
                    self.directive_entries(),
                    views(global_interceptors@),
                    depth as nat,
                ) ==> chain_settled(
                    r,
                    expected_children(
                        children,
                        children.len(),
                        loom_context,
                        self.directive_entries(),
                        views(global_interceptors@),
                        depth as nat,
                    ),
                ),
            },
            match children_of(execution_target@, loom_context) {
                Err(_) => true,
                Ok(children) => children_accounted(
                    self.directives(),
                    loom_context,
                    context,
                    failure_of(r),
                    error_of(
                        expected_children(
                            children,
                            children.len(),
                            loom_context,
                            self.directive_entries(),
                            views(global_interceptors@),
                            depth as nat,
                        ),
                    ),
                    children,
                    children.len(),
                    views(global_interceptors@),
                    depth as nat,
                ),
            },
        decreases depth, 0int,
    {
        let children = match execution_target.build_child(loom_context, context) {
            Ok(c) => c,
            Err(e) => {
                return Err(e);
            },
        };
        let ghost all = views(children@);
        let ghost entries = self.directive_entries();
        let ghost globals = views(global_interceptors@);
        let ghost fuel = depth as nat;
        let mut result: Vec<ActiveInterceptor> = Vec::new();
        let mut i: usize = 0;
        assert(outline_of_chain(chain_view(result@)) =~= Seq::<InterceptorView>::empty());
        while i < children.len()
            invariant
                i <= children.len(),
                all == views(children@),
                entries == self.directive_entries(),
                globals == views(global_interceptors@),
                fuel == depth as nat,
                children_of(execution_target@, loom_context) == Ok::<Seq<ActivityView>, ErrorView>(
                    all,
                ),
                expected_children(all, i as nat, loom_context, entries, globals, fuel) == Ok::<
                    Seq<InterceptorView>,
                    ErrorView,
                >(outline_of_chain(chain_view(result@))),
                all_nested_ordered(chain_view(result@)),
                all_read(
                    chain_view(result@),
                    read_among(
                        self.directives(),
                        loom_context,
                        context,
                        all,
                        i as nat,
                        globals,
                        fuel,
                    ),
                ),
                forall|call: DirectiveCallView| #[trigger]
                    children_ask_for(all, i as nat, loom_context, entries, globals, fuel, call)
                        ==> self.directives().has_read_of(loom_context, context, call),
            decreases children.len() - i,
        {
            if depth == 0 {
                proof {
                    expected_children_stops(
                        all,
                        (i + 1) as nat,
                        all.len(),
                        loom_context,
                        entries,
                        globals,
                        fuel,
                    );
                }
                return Err(
                    LoomError::execution("Call depth limit exceeded while building the chain"),
                );
            }
            assert(all[i as int] == children@[i as int]@);
            let chain = match self.build_within(
                loom_context,
                context,
                &children[i],
                global_interceptors,
                None,
                depth - 1,
            ) {
                Ok(c) => c,
                Err(e) => {
                    proof {
                        if expected_children(
                            all,
                            (i + 1) as nat,
                            loom_context,
                            entries,
                            globals,
                            fuel,
                        ) is Err {
                            expected_children_stops(
                                all,
                                (i + 1) as nat,
                                all.len(),
                                loom_context,
                                entries,
                                globals,
                                fuel,
                            );
                        }
                        if children_ask(
                            all,
                            (i + 1) as nat,
                            loom_context,
                            entries,
                            globals,
                            fuel,
                        ) {
                            children_ask_stays(
                                all,
                                (i + 1) as nat,
                                all.len(),
                                loom_context,
                                entries,
                                globals,
                                fuel,
                            );
                        }
                        let of_child = expected_chain(
                            all[i as int],
                            loom_context,
                            entries,
                            globals,
                            None,
                            (fuel - 1) as nat,
                        );
                        if !(of_child is Err && e@ == of_child->Err_0) {
                            let call = choose|call: DirectiveCallView|
                                asks_for(
                                    all[i as int],
                                    loom_context,
                                    entries,
                                    globals,
                                    (fuel - 1) as nat,
                                    call,
                                ) && #[trigger] self.directives().reads_of(
                                    loom_context,
                                    context,
                                    call,
                                    Err(e),
                                );
                            assert(children_ask_for(
                                all,
                                (i + 1) as nat,
                                loom_context,
                                entries,
                                globals,
                                fuel,
                                call,
                            ));
                            children_ask_for_stays(
                                all,
                                (i + 1) as nat,
                                all.len(),
                                loom_context,
                                entries,
                                globals,
                                fuel,
                                call,
                            );
                        }
                    }
                    return Err(e);
                },
            };
            let ghost inner = chain_view(chain@);
            let element = ActiveInterceptor::Executor(
                ActiveExecutorInterceptor::new(Executor::SequenceChain(SequenceChainInterceptor(chain))),
            );
            proof {
                let of_child = read_below(
                    self.directives(),
                    loom_context,
                    context,
                    all[i as int],
                    globals,
                    (fuel - 1) as nat,
                );
                let so_far = read_among(
                    self.directives(),
                    loom_context,
                    context,
                    all,
                    i as nat,
                    globals,
                    fuel,
                );
                let with_child = read_among(
                    self.directives(),
                    loom_context,
                    context,
                    all,
                    (i + 1) as nat,
                    globals,
                    fuel,
                );
                assert forall|d: ActiveDirectiveView| #[trigger] of_child(d) implies with_child(d) by {
                    let call = choose|call: DirectiveCallView|
                        asks_for(
                            all[i as int],
                            loom_context,
                            entries,
                            globals,
                            (fuel - 1) as nat,
                            call,
                        ) && #[trigger] read_from_call(
                            self.directives(),
                            loom_context,
                            context,
                            call,
                            d,
                        );
                    assert(children_ask_for(
                        all,
                        (i + 1) as nat,
                        loom_context,
                        entries,
                        globals,
                        fuel,
                        call,
                    ));
                }
                assert forall|d: ActiveDirectiveView| #[trigger] so_far(d) implies with_child(d) by {
                    let call = choose|call: DirectiveCallView|
                        children_ask_for(
                            all,
                            i as nat,
                            loom_context,
                            entries,
                            globals,
                            fuel,
                            call,
                        ) && #[trigger] read_from_call(
                            self.directives(),
                            loom_context,
                            context,
                            call,
                            d,
                        );
                    assert(children_ask_for(
                        all,
                        (i + 1) as nat,
                        loom_context,
                        entries,
                        globals,
                        fuel,
                        call,
                    ));
                }
                all_read_widens(inner, of_child, with_child);
                all_read_widens(chain_view(result@), so_far, with_child);
                assert(element_read(element@, with_child));
            }
            proof {
                let before = result@;
                assert(outline_of_chain(chain_view(before.push(element))) =~= outline_of_chain(
                    chain_view(before),
                ).push(outline_of(element@)));
                assert(chain_view(before.push(element)) =~= chain_view(before).push(element@));
                assert(nested_ordered(element@));
                assert forall|j: int| 0 <= j < chain_view(before).push(element@).len() implies nested_ordered(
                    #[trigger] chain_view(before).push(element@)[j],
                ) by {
                    if j < before.len() {
                        assert(chain_view(before).push(element@)[j] == chain_view(before)[j]);
                    }
                }
            }
            proof {
                assert forall|call: DirectiveCallView| #[trigger]
                    children_ask_for(
                        all,
                        (i + 1) as nat,
                        loom_context,
                        entries,
                        globals,
                        fuel,
                        call,
                    ) implies self.directives().has_read_of(loom_context, context, call) by {
                    if !children_ask_for(all, i as nat, loom_context, entries, globals, fuel, call) {
                        assert(asks_for(
                            all[i as int],
                            loom_context,
                            entries,
                            globals,
                            (fuel - 1) as nat,
                            call,
                        ));
                    }
                }
            }
            result.push(element);
            i += 1;
        }
        Ok(result)
    }
}

/// Whether `state` is the state `given`, prepared for `definition`, which
/// the registry holds under `name`: the environment, the working directory,
/// the metadata and the flags are those given; the scope is that of the kind
/// of the definition; the variables are those of the module of the
/// definition, or none where the registry does not know the module.
pub open spec fn prepared_state(
    state: ExecutionContext,
    given: ExecutionContext,
    definition: Definition,
    loom_context: &LoomContext,
    name: Seq<char>,
) -> bool {
    &&& state.env_vars == given.env_vars
    &&& state.working_dir == given.working_dir
    &&& state.dry_run == given.dry_run
    &&& state.parallelization_kind == given.parallelization_kind
    &&& state.metadata == given.metadata
    &&& state.previous_result == given.previous_result
    &&& state.scope == scope_of_kind(definition.kind)
    &&& view_map(state.variables) == match loom_context.variables_of(name) {
        Some(variables) => view_map(variables),
        None => Map::empty(),
    }
}

/// Whether `run` starts from the state `given`, prepared for `definition`.
pub open spec fn starts_from(
    run: ChainRun,
    given: ExecutionContext,
    definition: Definition,
    loom_context: &LoomContext,
    name: Seq<char>,
) -> bool {
    prepared_state(run.context, given, definition, loom_context, name)
}

/// The global interceptors that take part in the run of a definition of
/// kind `kind`, in the environment `env`, with the working directory named
/// `workspace`, at the time `now`.
pub open spec fn run_globals(
    globals: Seq<RegistrationView>,
    overrides: Map<Seq<char>, bool>,
    kind: DefinitionKind,
    env: Map<Seq<char>, Seq<char>>,
    workspace: Option<Seq<char>>,
    now: TimeOfDay,
) -> Seq<ActiveGlobalView> {
    active_globals(
        globals,
        overrides,
        Surroundings { scope: scope_of_kind(kind), env: env, workspace: workspace, now: now },
    )
}

/// The key under which a chain is kept: the name of the definition, an
/// underscore and the number of arguments.
pub open spec fn cache_key(name: Seq<char>, arguments: nat) -> Seq<char> {
    name + "_"@ + nat_text(arguments)
}

/// The error for a definition that is not in the registry.
pub open spec fn definition_not_found(name: Seq<char>, known: Seq<Seq<char>>) -> ErrorView {
    ErrorView::DefinitionNotFoundError {
        name,
        available_definitions: known,
        position: start_position(),
    }
}

/// One line of the list of interceptors that take part.
pub struct ListedView {
    pub name: Seq<char>,
    pub category: Seq<char>,
    pub priority: int,
}

/// The lines for the global interceptors that take part.
pub open spec fn listed(active: Seq<ActiveGlobalView>) -> Seq<ListedView> {
    Seq::new(
        active.len(),
        |i: int|
            ListedView {
                name: active[i].name,
                category: "global"@,
                priority: active[i].config.priority,
            },
    )
}

/// The lines of a list as the contracts see them.
pub open spec fn listed_views(lines: Seq<(String, String, i32)>) -> Seq<ListedView> {
    Seq::new(
        lines.len(),
        |i: int| ListedView { name: lines[i].0@, category: lines[i].1@, priority: lines[i].2 as int },
    )
}

impl<D: DirectiveInterceptor> InterceptorEngine<D> {
    pub fn new() -> (r: Self)
        ensures
            r.directive_entries() == Seq::<DirectiveOutline>::empty(),
            directives_orderly(r.directive_entries()),
            r.global_entries() == Seq::<RegistrationView>::empty(),
            orderly(r.global_entries()),
            r.global_overrides() == Map::<Seq<char>, bool>::empty(),
            r.cache() == Map::<Seq<char>, Vec<ActiveInterceptor>>::empty(),
            r.cached_keys() == Seq::<Seq<char>>::empty(),
    {
        InterceptorEngine {
            global_manager: GlobalInterceptorManager::new(),
            directive_manager: DirectiveInterceptorManager::new(),
            chain_cache: Dictionary::new(),
        }
    }

    /// Registers a global interceptor and forgets the chains that are kept.
    /// Fails, and registers nothing, where the priority of its default
    /// configuration lies in no band of the global interceptors.
    pub fn register_global<G: GlobalInterceptor>(
        &mut self,
        interceptor: &G,
    ) -> (r: Result<(), LoomError>)
        ensures
            final(self).cache() == Map::<Seq<char>, Vec<ActiveInterceptor>>::empty(),
            final(self).cached_keys() == Seq::<Seq<char>>::empty(),
            final(self).directive_entries() == old(self).directive_entries(),
            final(self).directives() == old(self).directives(),
            final(self).global_overrides() == old(self).global_overrides(),
            orderly(old(self).global_entries()) ==> orderly(final(self).global_entries()),
            r is Err ==> final(self).global_entries() == old(self).global_entries(),
            exists|entry: RegistrationView| #[trigger]
                registration_outcome(
                    old(self).global_entries(),
                    entry,
                    final(self).global_entries(),
                    r,
                ) && global_says_of_itself(interceptor, entry),
    {
        self.chain_cache = Dictionary::new();
        let ghost before = self.global_manager.entries();
        let r = self.global_manager.register(interceptor);
        proof {
            let entry = choose|entry: RegistrationView| #[trigger]
                registration_outcome(
                    before,
                    entry,
                    self.global_manager.entries(),
                    r,
                ) && global_says_of_itself(interceptor, entry);
            assert(registration_outcome(
                old(self).global_entries(),
                entry,
                self.global_entries(),
                r,
            ));
        }
        r
    }

    /// Registers a global interceptor by what the library reads of it, and
    /// forgets the chains that are kept.
    pub fn register_global_entry(
        &mut self,
        name: String,
        config: GlobalInterceptorConfig,
        need_chain: bool,
    ) -> (r: Result<(), LoomError>)
        ensures
            final(self).cache() == Map::<Seq<char>, Vec<ActiveInterceptor>>::empty(),
            final(self).cached_keys() == Seq::<Seq<char>>::empty(),
            final(self).directive_entries() == old(self).directive_entries(),
            final(self).directives() == old(self).directives(),
            final(self).global_overrides() == old(self).global_overrides(),
            orderly(old(self).global_entries()) ==> orderly(final(self).global_entries()),
            r is Ok <==> global_priority(config.priority as int),
            r is Ok ==> final(self).global_entries() == with_entry(
                old(self).global_entries(),
                RegistrationView {
                    name: name@,
                    config: config@,
                    need_chain,
                },
            ),
            r is Err ==> final(self).global_entries() == old(self).global_entries() && r->Err_0@
                == ErrorView::plain(
                invalid_global_priority(config.priority as int),
            ),
    {
        self.chain_cache = Dictionary::new();
        self.global_manager.register_entry(name, config, need_chain)
    }

    /// Registers a directive interceptor and forgets the chains that are
    /// kept. Fails, and registers nothing, where its priority lies in no band
    /// of the directive interceptors.
    pub fn register_directive(&mut self, interceptor: D) -> (r: Result<(), LoomError>)
        ensures
            final(self).cache() == Map::<Seq<char>, Vec<ActiveInterceptor>>::empty(),
            final(self).cached_keys() == Seq::<Seq<char>>::empty(),
            final(self).global_entries() == old(self).global_entries(),
            final(self).global_overrides() == old(self).global_overrides(),
            directives_orderly(old(self).directive_entries()) ==> directives_orderly(
                final(self).directive_entries(),
            ),
            r is Err ==> final(self).directive_entries() == old(self).directive_entries(),
            exists|entry: DirectiveOutline| #[trigger]
                directive_outcome(
                    old(self).directive_entries(),
                    entry,
                    final(self).directive_entries(),
                    r,
                ) && directive_says_of_itself(&interceptor, entry) && (r is Ok
                    ==> final(self).directives().interceptor_of(entry.name) == interceptor),
    {
        self.chain_cache = Dictionary::new();
        let ghost before = self.directive_manager.entries();
        let r = self.directive_manager.register(interceptor);
        proof {
            let entry = choose|entry: DirectiveOutline| #[trigger]
                directive_outcome(
                    before,
                    entry,
                    self.directive_manager.entries(),
                    r,
                ) && directive_says_of_itself(&interceptor, entry) && (r is Ok
                    ==> self.directive_manager.interceptor_of(entry.name) == interceptor);
            assert(directive_outcome(
                old(self).directive_entries(),
                entry,
                self.directive_entries(),
                r,
            ));
        }
        r
    }

    /// Registers a directive interceptor by what the library reads of it,
    /// and forgets the chains that are kept.
    pub fn register_directive_entry(&mut self, name: String, priority: i32, need_chain: bool, interceptor: D) -> (r:
        Result<(), LoomError>)
        ensures
            final(self).cache() == Map::<Seq<char>, Vec<ActiveInterceptor>>::empty(),
            final(self).cached_keys() == Seq::<Seq<char>>::empty(),
            final(self).global_entries() == old(self).global_entries(),
            final(self).global_overrides() == old(self).global_overrides(),
            directives_orderly(old(self).directive_entries()) ==> directives_orderly(
                final(self).directive_entries(),
            ),
            r is Ok <==> directive_priority(priority as int),
            r is Ok ==> final(self).directive_entries()
                == with_directive(
                old(self).directive_entries(),
                DirectiveOutline { name: name@, priority: priority as int, need_chain },
            ),
            r is Err ==> final(self).directive_entries() == old(self).directive_entries()
                && r->Err_0@ == ErrorView::plain(
                invalid_directive_priority(priority as int),
            ),
            r is Ok ==> final(self).directives().interceptor_of(name@) == interceptor,
            forall|other: Seq<char>|
                other != name@ && directive_known(old(self).directive_entries(), other)
                    ==> #[trigger] final(self).directives().interceptor_of(other)
                    == old(self).directives().interceptor_of(other),
            r is Err ==> final(self).directives() == old(self).directives(),
    {
        self.chain_cache = Dictionary::new();
        self.directive_manager.register_entry(name, priority, need_chain, interceptor)
    }

    /// Replaces the configuration of a global interceptor and forgets the
    /// chains that are kept.
    pub fn configure_global(
        &mut self,
        name: &str,
        config: GlobalInterceptorConfig,
    ) -> (r: Result<(), LoomError>)
        ensures
            final(self).cache() == Map::<Seq<char>, Vec<ActiveInterceptor>>::empty(),
            final(self).cached_keys() == Seq::<Seq<char>>::empty(),
            final(self).directive_entries() == old(self).directive_entries(),
            final(self).directives() == old(self).directives(),
            final(self).global_overrides() == old(self).global_overrides(),
            orderly(old(self).global_entries()) ==> orderly(final(self).global_entries()),
            r is Ok <==> registered(
                old(self).global_entries(),
                name@,
            ) && global_priority(config.priority as int),
            r is Ok ==> final(self).global_entries() == with_entry(
                old(self).global_entries(),
                RegistrationView {
                    name: name@,
                    config: config@,
                    need_chain: old(self).global_entries()[place_of(
                        old(self).global_entries(),
                        name@,
                        old(self).global_entries().len(),
                    ) as int].need_chain,
                },
            ),
            r is Err ==> final(self).global_entries() == old(self).global_entries(),
            r is Err ==> r->Err_0@ == if !registered(old(self).global_entries(), name@) {
                ErrorView::plain(global_not_found(name@))
            } else {
                ErrorView::plain(invalid_global_priority(config.priority as int))
            },
    {
        self.chain_cache = Dictionary::new();
        self.global_manager.configure(name, config)
    }

    /// Switches a global interceptor on or off for the user and forgets the
    /// chains that are kept.
    pub fn override_global(&mut self, name: &str, enabled: bool) -> (r: Result<(), LoomError>)
        ensures
            final(self).cache() == Map::<Seq<char>, Vec<ActiveInterceptor>>::empty(),
            final(self).cached_keys() == Seq::<Seq<char>>::empty(),
            final(self).directive_entries() == old(self).directive_entries(),
            final(self).directives() == old(self).directives(),
            final(self).global_entries() == old(self).global_entries(),
            r is Ok <==> registered(old(self).global_entries(), name@)
                && old(self).global_entries()[place_of(
                old(self).global_entries(),
                name@,
                old(self).global_entries().len(),
            ) as int].config.user_overridable,
            r is Ok ==> final(self).global_overrides() == old(self).global_overrides().insert(
                name@,
                enabled,
            ),
            r is Err ==> final(self).global_overrides() == old(self).global_overrides(),
            r is Err ==> r->Err_0@ == if !registered(old(self).global_entries(), name@) {
                ErrorView::plain(global_not_found(name@))
            } else {
                ErrorView::plain(global_not_overridable(name@))
            },
    {
        self.chain_cache = Dictionary::new();
        self.global_manager.set_user_override(name, enabled)
    }

    /// What preparing a run owes where the chain of `definition` is built,
    /// with `self` the engine before, and with the global interceptors
    /// judged for `workspace` and `now`.
    ///
    /// Where the expected chain is an error, the run fails. Where the run is
    /// prepared, its chain is the expected one, up to the parameters that the
    /// directive interceptors read from their calls. Where no interceptor is
    /// asked to read parameters, or none that is registered can fail to read
    /// them, the run is prepared exactly when a chain is expected, and fails
    /// with the expected error otherwise.
    pub open spec fn built_at(
        &self,
        r: Result<ChainRun, LoomError>,
        definition: Definition,
        loom_context: &LoomContext,
        env: Map<Seq<char>, Seq<char>>,
        arguments: Seq<InputArgView>,
        workspace: Option<Seq<char>>,
        now: TimeOfDay,
    ) -> bool {
        let active = run_globals(
            self.global_entries(),
            self.global_overrides(),
            definition.kind,
            env,
            workspace,
            now,
        );
        let expected = expected_chain(
            activity_of(definition@),
            loom_context,
            self.directive_entries(),
            active,
            Some(arguments),
            CALL_DEPTH_LIMIT as nat,
        );
        &&& expected is Err ==> r is Err
        &&& r is Ok ==> r->Ok_0.frames@.len() == 1 && r->Ok_0.frames@[0]@ is Chain && Ok::<
            Seq<InterceptorView>,
            ErrorView,
        >(outline_of_chain(r->Ok_0.frames@[0]@->Chain_chain)) == expected
        &&& self.reads_every_call(loom_context) || !asks_interceptors(
            activity_of(definition@),
            loom_context,
            self.directive_entries(),
            active,
            CALL_DEPTH_LIMIT as nat,
        ) ==> (r is Ok <==> expected is Ok) && (r is Err ==> r->Err_0@ == expected->Err_0)
    }

    /// How the interceptors that were asked account for the way the build
    /// of the chain of `definition` ended, with `self` the engine before:
    /// they were asked in a state that is `given`, prepared for the
    /// definition; they account for the outcome as [`accounted`] says; and
    /// every directive interceptor in the chain of a run that was prepared
    /// holds the parameters that were read from a call of its directive
    /// ([`read_below`]).
    pub open spec fn answered_at(
        &self,
        r: Result<ChainRun, LoomError>,
        given: ExecutionContext,
        definition: Definition,
        name: Seq<char>,
        loom_context: &LoomContext,
        arguments: Seq<InputArgView>,
        workspace: Option<Seq<char>>,
        now: TimeOfDay,
    ) -> bool {
        let active = run_globals(
            self.global_entries(),
            self.global_overrides(),
            definition.kind,
            text_map(given.env_vars),
            workspace,
            now,
        );
        exists|state: ExecutionContext|
            prepared_state(state, given, definition, loom_context, name) && #[trigger] accounted(
                self.directives(),
                loom_context,
                &state,
                failure_of(r),
                error_of(
                    expected_chain(
                        activity_of(definition@),
                        loom_context,
                        self.directive_entries(),
                        active,
                        Some(arguments),
                        CALL_DEPTH_LIMIT as nat,
                    ),
                ),
                activity_of(definition@),
                active,
                CALL_DEPTH_LIMIT as nat,
            ) && (r is Ok ==> r->Ok_0.frames@.len() == 1 && r->Ok_0.frames@[0]@ is Chain && all_read(
                r->Ok_0.frames@[0]@->Chain_chain,
                read_below(
                    self.directives(),
                    loom_context,
                    &state,
                    activity_of(definition@),
                    active,
                    CALL_DEPTH_LIMIT as nat,
                ),
            ))
    }

    /// What preparing the run of the definition called `name` with
    /// `arguments` arguments owes whatever the moment, with `self` the
    /// engine before and `after` the engine after:
    ///
    /// - nothing that is registered changes;
    /// - a name that the registry does not know fails, with the known names,
    ///   and a failure leaves the kept chains as they were;
    /// - a definition whose chain is kept is run, with that chain, and the
    ///   kept chains stay as they were;
    /// - a run whose chain was built has a chain that is in order
    ///   throughout, and that chain is kept from then on;
    /// - a run that is prepared is about to enter its chain.
    pub open spec fn prepared(
        &self,
        after: Self,
        loom_context: &LoomContext,
        name: Seq<char>,
        arguments: nat,
        r: Result<ChainRun, LoomError>,
    ) -> bool {
        let key = cache_key(name, arguments);
        &&& after.directive_entries() == self.directive_entries()
        &&& after.directives() == self.directives()
        &&& after.global_entries() == self.global_entries()
        &&& after.global_overrides() == self.global_overrides()
        &&& loom_context.definition_named(name) is None ==> r is Err && r->Err_0@
            == definition_not_found(name, loom_context.definition_names())
        &&& loom_context.definition_named(name) is Some && self.cache().contains_key(key) ==> r is Ok
        &&& r is Err ==> after.cache() == self.cache() && after.cached_keys() == self.cached_keys()
        &&& r is Ok ==> r->Ok_0.phase@ is Entering && r->Ok_0.frames@.len() == 1
            && r->Ok_0.frames@[0]@ is Chain
        &&& r is Ok && self.cache().contains_key(key) ==> r->Ok_0.frames@[0]@->Chain_chain
            == chain_view(self.cache()[key]@) && after.cache() == self.cache()
            && after.cached_keys() == self.cached_keys()
        &&& r is Ok && !self.cache().contains_key(key) ==> after.cached_keys()
            == self.cached_keys().push(key) && ordered_throughout(
            r->Ok_0.frames@[0]@->Chain_chain,
        ) && after.cache().contains_key(key) && chain_view(after.cache()[key]@)
            == r->Ok_0.frames@[0]@->Chain_chain
    }

    /// A definition that was run is run again, with as many arguments and
    /// with nothing registered or forgotten in between, on the very chain of
    /// the first run, whatever the moment of either run and whatever the
    /// interceptors read the first time; and the second run keeps no chain
    /// that the first did not.
    pub proof fn run_again_on_the_same_chain(
        before: Self,
        between: Self,
        after: Self,
        loom_context: &LoomContext,
        name: Seq<char>,
        arguments: nat,
        first: Result<ChainRun, LoomError>,
        second: Result<ChainRun, LoomError>,
    )
        requires
            before.prepared(between, loom_context, name, arguments, first),
            between.prepared(after, loom_context, name, arguments, second),
            first is Ok,
        ensures
            second is Ok,
            second->Ok_0.frames@[0]@->Chain_chain == first->Ok_0.frames@[0]@->Chain_chain,
            after.cache() == between.cache(),
            after.cached_keys() == between.cached_keys(),
    {
    }

    /// Prepares the run of the definition called `def_name`: finds the
    /// definition, takes the chain that is kept for it or builds and keeps
    /// one, and hands back a run that is about to enter the chain.
    ///
    /// `context` is the state that the run starts with; its scope and its
    /// variables are set here, from the definition and from its module. The
    /// global interceptors that take part are judged at `moment`.
    ///
    /// What is owed whatever the moment, [`InterceptorEngine::prepared`]
    /// says: a definition whose chain is kept is always run, with that
    /// chain. One whose chain is built is run as
    /// [`InterceptorEngine::built_at`] says: always where a chain is
    /// expected and no interceptor is asked to read parameters, or none that
    /// is registered can fail to read them.
    pub fn execute_at(
        &mut self,
        loom_context: &LoomContext,
        def_name: &str,
        input_args: &Vec<InputArg>,
        context: ExecutionContext,
        moment: &Moment,
    ) -> (r: Result<ChainRun, LoomError>)
        ensures
            old(self).prepared(
                *final(self),
                loom_context,
                def_name@,
                input_args@.len() as nat,
                r,
            ),
            r is Ok ==> starts_from(
                r->Ok_0,
                context,
                loom_context.definition_named(def_name@)->0,
                loom_context,
                def_name@,
            ),
            loom_context.definition_named(def_name@) is Some && !old(self).cache().contains_key(
                cache_key(def_name@, input_args@.len()),
            ) ==> old(self).built_at(
                r,
                loom_context.definition_named(def_name@)->0,
                loom_context,
                text_map(context.env_vars),
                views(input_args@),
                optional_text(moment.workspace),
                moment.now,
            ) && old(self).answered_at(
                r,
                context,
                loom_context.definition_named(def_name@)->0,
                def_name@,
                loom_context,
                views(input_args@),
                optional_text(moment.workspace),
                moment.now,
            ),
    {
        let definition = match loom_context.find_definition(def_name) {
            Some(d) => d,
            None => {
                return Err(
                    LoomError::definition_not_found(
                        def_name,
                        loom_context.known_definitions(),
                        Position::default(),
                    ),
                );
            },
        };
        let mut context = context;
        context.scope = ExecutionScope::from_definition(definition);
        match loom_context.get_variables(def_name) {
            Some(variables) => {
                context.variables = clone_value_dictionary(variables);
            },
            None => {
                context.variables = Dictionary::new();
            },
        }
        let mut key = String::from_str(def_name);
        key.append("_");
        key.append(unsigned_to_text(input_args.len() as u64).as_str());
        let kept = match self.chain_cache.get(key.as_str()) {
            Some(chain) => Some(clone_chain(chain)),
            None => None,
        };
        let chain = match kept {
            Some(chain) => chain,
            None => {
                let target = ExecutionActivity::from_definition(definition);
                let globals = self.global_manager.get_active_at(&context, moment);
                let built = match self.build_target_chain(
                    loom_context,
                    &context,
                    &target,
                    &globals,
                    Some(input_args),
                ) {
                    Ok(c) => c,
                    Err(e) => {
                        return Err(e);
                    },
                };
                let copy = clone_chain(&built);
                self.chain_cache.insert(key, copy);
                built
            },
        };
        let run = ChainRun::new(context, chain);
        Ok(run)
    }

    /// Prepares the run of the definition called `def_name` now: the clock
    /// and the name of the working directory are read once, then the run is
    /// prepared as by [`InterceptorEngine::execute_at`]. What is owed where
    /// the chain is built holds for the workspace and the time that were
    /// read; a run without a working directory has no workspace, and where
    /// no registered global interceptor reads the clock or the working
    /// directory the moment does not matter.
    pub fn execute(
        &mut self,
        loom_context: &LoomContext,
        def_name: &str,
        input_args: &Vec<InputArg>,
        context: ExecutionContext,
    ) -> (r: Result<ChainRun, LoomError>)
        ensures
            old(self).prepared(
                *final(self),
                loom_context,
                def_name@,
                input_args@.len() as nat,
                r,
            ),
            r is Ok ==> starts_from(
                r->Ok_0,
                context,
                loom_context.definition_named(def_name@)->0,
                loom_context,
                def_name@,
            ),
            loom_context.definition_named(def_name@) is Some && !old(self).cache().contains_key(
                cache_key(def_name@, input_args@.len()),
            ) ==> exists|workspace: Option<Seq<char>>, now: TimeOfDay| #[trigger]
                old(self).built_at(
                    r,
                    loom_context.definition_named(def_name@)->0,
                    loom_context,
                    text_map(context.env_vars),
                    views(input_args@),
                    workspace,
                    now,
                ) && old(self).answered_at(
                    r,
                    context,
                    loom_context.definition_named(def_name@)->0,
                    def_name@,
                    loom_context,
                    views(input_args@),
                    workspace,
                    now,
                ),
            context.working_dir is None && loom_context.definition_named(def_name@) is Some
                && !old(self).cache().contains_key(cache_key(def_name@, input_args@.len()))
                ==> exists|now: TimeOfDay| #[trigger]
                old(self).built_at(
                    r,
                    loom_context.definition_named(def_name@)->0,
                    loom_context,
                    text_map(context.env_vars),
                    views(input_args@),
                    None,
                    now,
                ) && old(self).answered_at(
                    r,
                    context,
                    loom_context.definition_named(def_name@)->0,
                    def_name@,
                    loom_context,
                    views(input_args@),
                    None,
                    now,
                ),
            all_moment_free(old(self).global_entries()) && loom_context.definition_named(
                def_name@,
            ) is Some && !old(self).cache().contains_key(cache_key(def_name@, input_args@.len()))
                ==> old(self).built_at(
                r,
                loom_context.definition_named(def_name@)->0,
                loom_context,
                text_map(context.env_vars),
                views(input_args@),
                None,
                day_start(),
            ) && old(self).answered_at(
                r,
                context,
                loom_context.definition_named(def_name@)->0,
                def_name@,
                loom_context,
                views(input_args@),
                None,
                day_start(),
            ),
    {
        let moment = Moment::observe(&context);
        let ghost env = text_map(context.env_vars);
        let r = self.execute_at(loom_context, def_name, input_args, context, &moment);
        proof {
            if all_moment_free(old(self).global_entries()) && loom_context.definition_named(
                def_name@,
            ) is Some {
                let scope = scope_of_kind(loom_context.definition_named(def_name@)->0.kind);
                moment_free_globals(
                    old(self).global_entries(),
                    old(self).global_overrides(),
                    Surroundings {
                        scope,
                        env,
                        workspace: optional_text(moment.workspace),
                        now: moment.now,
                    },
                    Surroundings { scope, env, workspace: None, now: day_start() },
                );
            }
        }
        r
    }

    /// The global interceptors that take part in a run on a node of kind
    /// `target` at the given moment, each with its name, the word `global`
    /// and its priority, the highest priority first.
    pub fn list_active_interceptors_at(
        &self,
        context: &ExecutionContext,
        moment: &Moment,
    ) -> (r: Vec<(String, String, i32)>)
        ensures
            listed_views(r@) == listed(
                active_globals(
                    self.global_entries(),
                    self.global_overrides(),
                    surroundings_of(
                        context,
                        optional_text(moment.workspace),
                        moment.now,
                    ),
                ),
            ),
    {
        let active = self.global_manager.get_active_at(context, moment);
        let mut out: Vec<(String, String, i32)> = Vec::new();
        let mut i: usize = 0;
        while i < active.len()
            invariant
                i <= active.len(),
                out.len() == i,
                forall|j: int|
                    0 <= j < i ==> out@[j].0@ == active@[j].name@ && out@[j].1@ == "global"@
                        && out@[j].2 == active@[j].config.priority,
            decreases active.len() - i,
        {
            out.push((active[i].name.clone(), String::from_str("global"), active[i].config.priority));
            i += 1;
        }
        assert(listed_views(out@) =~= listed(views(active@)));
        out
    }

    /// The global interceptors that take part in a run on a node of kind
    /// `target` now, in the environment `env_vars` and without a working
    /// directory, listed as by
    /// [`InterceptorEngine::list_active_interceptors_at`]. Only the time of
    /// day is read here.
    pub fn list_active_interceptors(
        &self,
        target: ExecutionScope,
        env_vars: Dictionary<String>,
    ) -> (r: Vec<(String, String, i32)>)
        ensures
            exists|now: TimeOfDay|
                listed_views(r@) == listed(
                    #[trigger] active_globals(
                        self.global_entries(),
                        self.global_overrides(),
                        Surroundings {
                            scope: target,
                            env: text_map(env_vars),
                            workspace: None,
                            now,
                        },
                    ),
                ),
            all_moment_free(self.global_entries()) ==> listed_views(r@) == listed(
                active_globals(
                    self.global_entries(),
                    self.global_overrides(),
                    Surroundings {
                        scope: target,
                        env: text_map(env_vars),
                        workspace: None,
                        now: day_start(),
                    },
                ),
            ),
    {
        let mut context = ExecutionContext::new(target);
        context.env_vars = env_vars;
        let moment = Moment::observe(&context);
        let r = self.list_active_interceptors_at(&context, &moment);
        proof {
            let around = Surroundings {
                scope: target,
                env: text_map(env_vars),
                workspace: None,
                now: moment.now,
            };
            assert(around == surroundings_of(
                &context,
                optional_text(moment.workspace),
                moment.now,
            ));
            assert(listed_views(r@) == listed(
                active_globals(
                    self.global_entries(),
                    self.global_overrides(),
                    around,
                ),
            ));
            if all_moment_free(self.global_entries()) {
                moment_free_globals(
                    self.global_entries(),
                    self.global_overrides(),
                    around,
                    Surroundings {
                        scope: target,
                        env: text_map(env_vars),
                        workspace: None,
                        now: day_start(),
                    },
                );
            }
        }
        r
    }

    /// No two registrations can be in conflict: the bands keep the
    /// categories apart and equal priorities are ordered by registration.
    pub fn validate_priority_conflicts(&self) -> (r: Result<(), Vec<String>>)
        ensures
            r is Ok,
    {
        Ok(())
    }

    /// Forgets the chains that are kept.
    pub fn clear_cache(&mut self)
        ensures
            final(self).cache() == Map::<Seq<char>, Vec<ActiveInterceptor>>::empty(),
            final(self).cached_keys() == Seq::<Seq<char>>::empty(),
            final(self).directive_entries() == old(self).directive_entries(),
            final(self).directives() == old(self).directives(),
            final(self).global_entries() == old(self).global_entries(),
            final(self).global_overrides() == old(self).global_overrides(),
    {
        self.chain_cache = Dictionary::new();
    }

    /// How many chains are kept.
    pub fn cache_stats(&self) -> (r: Option<usize>)
        ensures
            r == Some(self.cached_keys().len() as usize),
    {
        Some(self.chain_cache.len())
    }
}

} // verus!

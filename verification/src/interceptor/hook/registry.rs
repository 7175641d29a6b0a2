//! The registry of hook handlers.

use vstd::prelude::*;
use vstd::string::*;
use crate::dictionary::{text_map, text_values};
use crate::interceptor::context::ExecutionContext;
use crate::interceptor::hook::{HookHandler, HookPayload};
use crate::interceptor::priority::{falling, insert_keeps_falling, place_from};
use crate::interceptor::result::HookResult;
use crate::interceptor::scope::ExecutionHook;
use crate::text::{nat_text, unsigned_to_text};

verus! {

/// A registered handler, with the hook and the priority that it gave itself.
pub struct HookEntry<H> {
    pub hook: ExecutionHook,
    pub priority: i32,
    pub handler: H,
}

/// What the registry shows of a registered handler.
pub struct HookOutline {
    pub hook: ExecutionHook,
    pub priority: int,
}

impl<H> HookEntry<H> {
    pub open spec fn outline(&self) -> HookOutline {
        HookOutline { hook: self.hook, priority: self.priority as int }
    }
}

/// The registry of handlers, by falling priority; handlers of equal priority
/// in the order of their registration. A registry that is made by
/// [`HookRegistry::new`] and filled by its own functions keeps that order:
/// each of them hands on `falling(entries, hook_rank())`.
pub struct HookRegistry<H> {
    handlers: Vec<HookEntry<H>>,
}

/// The priority of a registered handler.
pub open spec fn hook_rank() -> spec_fn(HookOutline) -> int {
    |o: HookOutline| o.priority
}

/// The metadata with the first `n` changes written into it, in order.
pub open spec fn with_changes(
    metadata: Map<Seq<char>, Seq<char>>,
    keys: Seq<Seq<char>>,
    values: Seq<Seq<char>>,
    n: nat,
) -> Map<Seq<char>, Seq<char>>
    decreases n,
{
    if n == 0 || n > keys.len() || n > values.len() {
        metadata
    } else {
        with_changes(metadata, keys, values, (n - 1) as nat).insert(keys[n - 1], values[n - 1])
    }
}

/// The metadata of a run after a handler has answered: unchanged for
/// `Continue` and `Block`, with the changes written into it for
/// `ModifyContext`, with the number of attempts under `retry_max` for `Retry`.
pub open spec fn metadata_after(metadata: Map<Seq<char>, Seq<char>>, result: HookResult) -> Map<
    Seq<char>,
    Seq<char>,
> {
    match result {
        HookResult::Continue => metadata,
        HookResult::ModifyContext { changes } => with_changes(
            metadata,
            changes.keys(),
            text_values(changes),
            changes.keys().len(),
        ),
        HookResult::Block { .. } => metadata,
        HookResult::Retry { max_attempts } => metadata.insert(
            "retry_max"@,
            nat_text(max_attempts as nat),
        ),
    }
}

/// Carries out what a handler has answered: `Block` stops with its reason,
/// anything else goes on, with the metadata of the run changed as the answer
/// asks. Nothing else of the run changes.
pub fn apply_hook_result(context: &mut ExecutionContext, result: HookResult) -> (r: Result<(), String>)
    ensures
        match result {
            HookResult::Block { reason } => r is Err && r->Err_0@ == reason@,
            _ => r is Ok,
        },
        text_map(final(context).metadata) == metadata_after(text_map(old(context).metadata), result),
        result is Block || result is Continue ==> *final(context) == *old(context),
        final(context).variables == old(context).variables,
        final(context).env_vars == old(context).env_vars,
        final(context).working_dir == old(context).working_dir,
        final(context).dry_run == old(context).dry_run,
        final(context).scope == old(context).scope,
        final(context).parallelization_kind == old(context).parallelization_kind,
        final(context).previous_result == old(context).previous_result,
{
    match result {
        HookResult::Continue => Ok(()),
        HookResult::ModifyContext { changes } => {
            let ghost start = text_map(context.metadata);
            let ghost keys = changes.keys();
            let ghost values = text_values(changes);
            let mut i: usize = 0;
            proof {
                changes.same_length();
            }
            while i < changes.len()
                invariant
                    i <= changes.keys().len(),
                    changes.keys().len() == changes.values().len(),
                    keys == changes.keys(),
                    values == text_values(changes),
                    text_map(context.metadata) == with_changes(start, keys, values, i as nat),
                    context.variables == old(context).variables,
                    context.env_vars == old(context).env_vars,
                    context.working_dir == old(context).working_dir,
                    context.dry_run == old(context).dry_run,
                    context.scope == old(context).scope,
                    context.parallelization_kind == old(context).parallelization_kind,
                    context.previous_result == old(context).previous_result,
                decreases changes.keys().len() - i,
            {
                let key = changes.key_at(i).clone();
                let value = changes.value_at(i).clone();
                proof {
                    let before = context.metadata;
                    assert(text_map(before).insert(key@, value@) =~= before@.insert(
                        key@,
                        value,
                    ).map_values(|t: String| t@));
                    assert(values[i as int] == changes.values()[i as int]@);
                }
                context.metadata.insert(key, value);
                i += 1;
            }
            Ok(())
        },
        HookResult::Block { reason } => Err(reason),
        HookResult::Retry { max_attempts } => {
            let key = String::from_str("retry_max");
            let value = unsigned_to_text(max_attempts as u64);
            proof {
                let before = context.metadata;
                assert(text_map(before).insert(key@, value@) =~= before@.insert(
                    key@,
                    value,
                ).map_values(|t: String| t@));
            }
            context.metadata.insert(key, value);
            Ok(())
        },
    }
}

/// Whether `next` is the state `left` with `answer` carried out: the
/// metadata changed as [`metadata_after`] says, and nothing else.
pub open spec fn carried(left: ExecutionContext, answer: HookResult, next: ExecutionContext) -> bool {
    &&& text_map(next.metadata) == metadata_after(text_map(left.metadata), answer)
    &&& answer is Block || answer is Continue ==> next == left
    &&& next.variables == left.variables
    &&& next.env_vars == left.env_vars
    &&& next.working_dir == left.working_dir
    &&& next.dry_run == left.dry_run
    &&& next.scope == left.scope
    &&& next.parallelization_kind == left.parallelization_kind
    &&& next.previous_result == left.previous_result
}

/// Whether `entry` is what `handler` says of itself: its hook and its
/// priority.
pub open spec fn says_of_itself<H: HookHandler>(handler: &H, entry: HookOutline) -> bool {
    exists|priority: i32|
        #[trigger] call_ensures(H::priority, (handler,), priority) && call_ensures(
            H::hook_type,
            (handler,),
            entry.hook,
        ) && entry.priority == priority
}

/// Whether `answer` is what `handler` answered when it was told of
/// `payload`, in whatever state the run was.
pub open spec fn answered<H: HookHandler>(
    handler: &H,
    payload: &HookPayload,
    answer: HookResult,
) -> bool {
    exists|m: &mut ExecutionContext| #[trigger] call_ensures(H::handle, (handler, m, payload), answer)
}

impl<H: HookHandler> HookRegistry<H> {
    /// What is registered, in the order in which handlers are run.
    pub closed spec fn entries(&self) -> Seq<HookOutline> {
        Seq::new(self.handlers@.len(), |i: int| self.handlers@[i].outline())
    }

    pub fn new() -> (r: Self)
        ensures
            r.entries() == Seq::<HookOutline>::empty(),
            falling(r.entries(), hook_rank()),
    {
        let r = HookRegistry { handlers: Vec::new() };
        assert(r.entries() =~= Seq::<HookOutline>::empty());
        r
    }

    /// Registers a handler for the hook and with the priority that it gives
    /// itself; see [`HookRegistry::register_entry`].
    pub fn register_hook(&mut self, handler: H)
        ensures
            final(self).entries().len() == old(self).entries().len() + 1,
            exists|entry: HookOutline|
                final(self).entries() == #[trigger] old(self).entries().insert(
                    place_from(old(self).entries(), entry.priority, hook_rank(), 0),
                    entry,
                ) && says_of_itself(&handler, entry),
            falling(old(self).entries(), hook_rank()) ==> falling(final(self).entries(), hook_rank()),
    {
        let hook = handler.hook_type();
        let priority = handler.priority();
        let ghost entry = HookOutline { hook, priority: priority as int };
        assert(says_of_itself(&handler, entry));
        self.register_entry(hook, priority, handler);
        assert(self.entries() == old(self).entries().insert(
            place_from(old(self).entries(), entry.priority, hook_rank(), 0),
            entry,
        ));
    }

    /// Registers a handler behind the handlers of at least its priority and
    /// before those of less.
    pub fn register_entry(&mut self, hook: ExecutionHook, priority: i32, handler: H)
        ensures
            final(self).entries() == old(self).entries().insert(
                place_from(old(self).entries(), priority as int, hook_rank(), 0),
                HookOutline { hook, priority: priority as int },
            ),
            final(self).entries().len() == old(self).entries().len() + 1,
            falling(old(self).entries(), hook_rank()) ==> falling(final(self).entries(), hook_rank()),
    {
        let ghost before = self.entries();
        proof {
            if falling(before, hook_rank()) {
                insert_keeps_falling(before, HookOutline { hook, priority: priority as int }, hook_rank());
            }
        }
        let mut p: usize = 0;
        while p < self.handlers.len() && self.handlers[p].priority >= priority
            invariant
                p <= self.handlers.len(),
                self.entries() == before,
                before.len() == self.handlers@.len(),
                place_from(before, priority as int, hook_rank(), 0) == place_from(
                    before,
                    priority as int,
                    hook_rank(),
                    p as int,
                ),
            decreases self.handlers.len() - p,
        {
            assert(before[p as int] == self.handlers@[p as int].outline());
            p += 1;
        }
        proof {
            if p < self.handlers.len() {
                assert(before[p as int] == self.handlers@[p as int].outline());
            }
        }
        let entry = HookEntry { hook, priority, handler };
        self.handlers.insert(p, entry);
        assert(self.entries() =~= before.insert(p as int, entry.outline()));
    }

    /// How many handlers are registered.
    pub fn len(&self) -> (r: usize)
        ensures
            r == self.entries().len(),
    {
        self.handlers.len()
    }

    /// The handler at place `i` of what is registered.
    pub closed spec fn handler_at(&self, i: int) -> H {
        self.handlers@[i].handler
    }

    /// Whether no handler is registered for `hook`.
    pub open spec fn none_for(&self, hook: ExecutionHook) -> bool {
        forall|i: int| 0 <= i < self.entries().len() ==> (#[trigger] self.entries()[i]).hook != hook
    }

    /// Whether the handler at place `i`, told of `payload`, answered
    /// something other than `Block`.
    pub open spec fn went_on(&self, i: int, payload: &HookPayload) -> bool {
        exists|answer: HookResult|
            !(answer is Block) && #[trigger] answered(&self.handler_at(i), payload, answer)
    }

    /// Whether the handler at place `i` is the first handler of `hook` that
    /// answered `Block` when it was told of `payload`, and gave `reason`.
    pub open spec fn blocked_at(
        &self,
        i: int,
        hook: ExecutionHook,
        payload: &HookPayload,
        reason: Seq<char>,
    ) -> bool {
        &&& 0 <= i < self.entries().len()
        &&& self.entries()[i].hook == hook
        &&& exists|text: String|
            text@ == reason && #[trigger] answered(
                &self.handler_at(i),
                payload,
                HookResult::Block { reason: text },
            )
        &&& forall|j: int|
            0 <= j < i && (#[trigger] self.entries()[j]).hook == hook ==> self.went_on(j, payload)
    }

    /// Runs the handlers of a hook by falling priority and carries out what
    /// each answers, as [`apply_hook_result`] says. The first handler that
    /// answers `Block` stops the run of the hook with its reason. Without a
    /// handler for the hook nothing happens.
    ///
    /// A handler may change the state of the run as it likes. The last
    /// clause follows the state through the handlers: `states` holds the
    /// state before each registered handler that was reached, and the state
    /// at the end. A handler of another hook leaves it alone; a handler of
    /// the hook is handed it, and what the handler leaves, with its answer
    /// carried out, is the next state. Only the last handler reached can have
    /// answered `Block`, and it has exactly where the hook was stopped.
    pub fn execute_hooks(&self, hook_type: ExecutionHook, context: &mut ExecutionContext, payload: &HookPayload) -> (r:
        Result<(), String>)
        ensures
            self.none_for(hook_type) ==> r is Ok && *final(context) == *old(context),
            r is Ok ==> forall|i: int|
                0 <= i < self.entries().len() && (#[trigger] self.entries()[i]).hook == hook_type
                    ==> self.went_on(i, payload),
            r is Err ==> exists|i: int| #[trigger] self.blocked_at(i, hook_type, payload, r->Err_0@),
            exists|states: Seq<ExecutionContext>|
                1 <= #[trigger] states.len() <= self.entries().len() + 1 && states[0] == *old(
                    context,
                ) && states.last() == *final(context) && (r is Ok ==> states.len()
                    == self.entries().len() + 1) && forall|i: int|
                    0 <= i < states.len() - 1 ==> if (#[trigger] self.entries()[i]).hook
                        != hook_type {
                        states[i + 1] == states[i]
                    } else {
                        exists|m: &mut ExecutionContext, answer: HookResult|
                            *m == states[i] && #[trigger] call_ensures(
                                H::handle,
                                (&self.handler_at(i), m, payload),
                                answer,
                            ) && carried(*final(m), answer, states[i + 1]) && (answer is Block <==> r is Err
                                && i == states.len() - 2) && (answer is Block ==> r is Err
                                && r->Err_0@ == answer->reason@)
                    },
    {
        let mut i: usize = 0;
        let ghost mut states: Seq<ExecutionContext> = seq![*context];
        while i < self.handlers.len()
            invariant
                i <= self.handlers.len(),
                self.entries().len() == self.handlers@.len(),
                states.len() == i + 1,
                states[0] == *old(context),
                states[i as int] == *context,
                (forall|j: int| 0 <= j < i ==> (#[trigger] self.entries()[j]).hook != hook_type)
                    ==> *context == *old(context),
                forall|j: int|
                    0 <= j < i && (#[trigger] self.entries()[j]).hook == hook_type ==> self.went_on(
                        j,
                        payload,
                    ),
                forall|j: int|
                    0 <= j < i ==> if (#[trigger] self.entries()[j]).hook != hook_type {
                        states[j + 1] == states[j]
                    } else {
                        exists|m: &mut ExecutionContext, answer: HookResult|
                            *m == states[j] && #[trigger] call_ensures(
                                H::handle,
                                (&self.handler_at(j), m, payload),
                                answer,
                            ) && carried(*final(m), answer, states[j + 1]) && !(answer is Block)
                    },
            decreases self.handlers.len() - i,
        {
            assert(self.entries()[i as int] == self.handlers@[i as int].outline());
            let ghost earlier = states;
            if self.handlers[i].hook == hook_type {
                let ghost before = *context;
                let answer = self.handlers[i].handler.handle(context, payload);
                let ghost left = *context;
                assert(answered(&self.handler_at(i as int), payload, answer));
                assert(exists|m: &mut ExecutionContext|
                    *m == before && *final(m) == left && #[trigger] call_ensures(
                        H::handle,
                        (&self.handler_at(i as int), m, payload),
                        answer,
                    ));
                let outcome = apply_hook_result(context, answer);
                proof {
                    states = earlier.push(*context);
                    assert(carried(left, answer, *context));
                }
                match outcome {
                    Ok(_) => {
                        assert(self.went_on(i as int, payload));
                    },
                    Err(reason) => {
                        assert(self.blocked_at(i as int, hook_type, payload, reason@));
                        assert(states.len() == i + 2);
                        return Err(reason);
                    },
                }
            } else {
                proof {
                    states = earlier.push(*context);
                }
            }
            i += 1;
        }
        Ok(())
    }
}

} // verus!

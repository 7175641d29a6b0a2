//! The registry of directive interceptors.

use vstd::prelude::*;
use vstd::string::*;
use crate::ast::{DirectiveCall, DirectiveCallView};
use crate::context::LoomContext;
use crate::dictionary::Dictionary;
use crate::error::{ErrorView, LoomError};
use crate::interceptor::context::ExecutionContext;
use crate::interceptor::directive::interceptor::DirectiveInterceptor;
use crate::interceptor::directive::{ActiveDirectiveInterceptor, ActiveDirectiveView};
use crate::interceptor::priority::{
    directive_priority, is_directive_priority, rank_of, sort_by_priority, sorted_prefix_of_mapped,
    stable_sort, stable_sort_properties,
};
use crate::text::{int_text, int_to_text, text_eq};
use crate::types::LoomValue;
use crate::views::views;

verus! {

/// A registered directive interceptor: the interceptor itself, and what the
/// library read of it when it was registered.
pub struct DirectiveRegistration<D> {
    pub name: String,
    pub priority: i32,
    pub need_chain: bool,
    pub interceptor: D,
}

/// What a chain shows of a directive interceptor besides its parameters.
pub struct DirectiveOutline {
    pub name: Seq<char>,
    pub priority: int,
    pub need_chain: bool,
}

impl<D> DirectiveRegistration<D> {
    pub open spec fn outline(&self) -> DirectiveOutline {
        DirectiveOutline {
            name: self.name@,
            priority: self.priority as int,
            need_chain: self.need_chain,
        }
    }
}

impl ActiveDirectiveView {
    pub open spec fn outline(self) -> DirectiveOutline {
        DirectiveOutline { name: self.name, priority: self.priority, need_chain: self.need_chain }
    }
}

/// The registry of directive interceptors, in the order of registration.
///
/// It is a list and not a hash map, for the reason given in
/// [`crate::dictionary`]. [`orderly`] is the invariant that its functions
/// keep.
pub struct DirectiveInterceptorManager<D> {
    interceptors: Vec<DirectiveRegistration<D>>,
}

/// The message for a priority outside the bands of directive interceptors.
pub open spec fn invalid_directive_priority(priority: int) -> Seq<char> {
    "Directive interceptor priority "@ + int_text(priority)
        + " is not in valid range. Use: DIRECTIVE_HIGH (7000-8000), DIRECTIVE_NORMAL (3000-5000), DIRECTIVE_SUPPORT (500-1000)"@
}

/// The message for a directive that no interceptor stands behind.
pub open spec fn unknown_directive(name: Seq<char>) -> Seq<char> {
    "Unknown directive: "@ + name
}

/// The place of the directive called `name` among the first `n` registered, or `n`.
pub open spec fn directive_place(entries: Seq<DirectiveOutline>, name: Seq<char>, n: nat) -> nat
    decreases n,
{
    if n == 0 || n > entries.len() {
        n
    } else {
        let before = directive_place(entries, name, (n - 1) as nat);
        if before < n - 1 {
            before
        } else if entries[n - 1].name == name {
            (n - 1) as nat
        } else {
            n
        }
    }
}

/// Whether an interceptor is registered for the directive called `name`.
pub open spec fn directive_known(entries: Seq<DirectiveOutline>, name: Seq<char>) -> bool {
    directive_place(entries, name, entries.len()) < entries.len()
}

/// The registered interceptor of the directive called `name`.
pub open spec fn directive_named(entries: Seq<DirectiveOutline>, name: Seq<char>) -> DirectiveOutline {
    entries[directive_place(entries, name, entries.len()) as int]
}

/// The registrations with `entry` put in: in the place of the first one of
/// its name, or at the end where the name is new.
pub open spec fn with_directive(entries: Seq<DirectiveOutline>, entry: DirectiveOutline) -> Seq<
    DirectiveOutline,
> {
    if directive_known(entries, entry.name) {
        entries.update(directive_place(entries, entry.name, entries.len()) as int, entry)
    } else {
        entries.push(entry)
    }
}

/// The first of the first `n` calls whose directive is not registered, or `n`.
pub open spec fn first_unknown(entries: Seq<DirectiveOutline>, calls: Seq<DirectiveCallView>, n: nat) -> nat
    decreases n,
{
    if n == 0 || n > calls.len() {
        n
    } else {
        let before = first_unknown(entries, calls, (n - 1) as nat);
        if before < n - 1 {
            before
        } else if !directive_known(entries, calls[n - 1].name) {
            (n - 1) as nat
        } else {
            n
        }
    }
}

/// Whether an interceptor is registered for every call.
pub open spec fn all_known(entries: Seq<DirectiveOutline>, calls: Seq<DirectiveCallView>) -> bool {
    first_unknown(entries, calls, calls.len()) == calls.len()
}

/// For each call what its interceptor shows in a chain, in the order of the calls.
pub open spec fn resolved(entries: Seq<DirectiveOutline>, calls: Seq<DirectiveCallView>) -> Seq<
    DirectiveOutline,
> {
    Seq::new(
        calls.len(),
        |i: int|
            DirectiveOutline {
                name: calls[i].name,
                priority: directive_named(entries, calls[i].name).priority,
                need_chain: directive_named(entries, calls[i].name).need_chain,
            },
    )
}

/// The priority of an outline.
pub open spec fn outline_rank() -> spec_fn(DirectiveOutline) -> int {
    |o: DirectiveOutline| o.priority
}

/// What the interceptors of the calls show in a chain: the highest priority
/// first, calls of equal priority in the order in which they are written.
pub open spec fn active_outlines(entries: Seq<DirectiveOutline>, calls: Seq<DirectiveCallView>) -> Seq<
    DirectiveOutline,
> {
    stable_sort(resolved(entries, calls), outline_rank())
}

/// What a list of active directive interceptors shows in a chain.
pub open spec fn outlines(active: Seq<ActiveDirectiveView>) -> Seq<DirectiveOutline> {
    Seq::new(active.len(), |i: int| active[i].outline())
}

/// Once the name is found among the first `k` registrations, its place is settled.
pub proof fn directive_place_settles(entries: Seq<DirectiveOutline>, name: Seq<char>, k: nat, n: nat)
    requires
        k <= n <= entries.len(),
        directive_place(entries, name, k) < k,
    ensures
        directive_place(entries, name, n) == directive_place(entries, name, k),
    decreases n,
{
    if k < n {
        directive_place_settles(entries, name, k, (n - 1) as nat);
    }
}

/// The place of a name depends on the names that are registered only.
pub proof fn directive_place_by_names(
    a: Seq<DirectiveOutline>,
    b: Seq<DirectiveOutline>,
    name: Seq<char>,
    n: nat,
)
    requires
        n <= a.len(),
        n <= b.len(),
        forall|i: int| 0 <= i < n ==> (#[trigger] a[i]).name == b[i].name,
    ensures
        directive_place(a, name, n) == directive_place(b, name, n),
    decreases n,
{
    if n > 0 {
        directive_place_by_names(a, b, name, (n - 1) as nat);
        assert(a[n - 1].name == b[n - 1].name);
    }
}

/// A place that is found holds the name, and the name is found nowhere before it.
pub proof fn directive_place_is_first(entries: Seq<DirectiveOutline>, name: Seq<char>, n: nat)
    requires
        n <= entries.len(),
    ensures
        directive_place(entries, name, n) <= n,
        directive_place(entries, name, n) < n ==> entries[directive_place(
            entries,
            name,
            n,
        ) as int].name == name,
        forall|j: int|
            0 <= j < directive_place(entries, name, n) ==> (#[trigger] entries[j]).name != name,
    decreases n,
{
    if n > 0 {
        directive_place_is_first(entries, name, (n - 1) as nat);
    }
}

/// Whether the registrations are in order: no two have the same name, and
/// every priority lies in a band of the directive interceptors.
pub open spec fn orderly(entries: Seq<DirectiveOutline>) -> bool {
    &&& forall|i: int, j: int|
        0 <= i < j < entries.len() ==> (#[trigger] entries[i]).name != (#[trigger] entries[j]).name
    &&& forall|i: int| 0 <= i < entries.len() ==> directive_priority((#[trigger] entries[i]).priority)
}

/// Registrations that are in order stay in order when an entry whose
/// priority lies in a band of the directive interceptors is put in.
pub proof fn with_directive_stays_orderly(entries: Seq<DirectiveOutline>, entry: DirectiveOutline)
    requires
        orderly(entries),
        directive_priority(entry.priority),
    ensures
        orderly(with_directive(entries, entry)),
{
    directive_place_is_first(entries, entry.name, entries.len());
    let after = with_directive(entries, entry);
    let place = directive_place(entries, entry.name, entries.len()) as int;
    assert forall|i: int, j: int| 0 <= i < j < after.len() implies (#[trigger] after[i]).name != (
    #[trigger] after[j]).name by {
        if directive_known(entries, entry.name) {
            assert(after[i].name == entries[i].name);
            assert(after[j].name == entries[j].name);
        } else if j == entries.len() {
            assert(after[i] == entries[i]);
        } else {
            assert(after[i] == entries[i]);
            assert(after[j] == entries[j]);
        }
    }
    assert forall|i: int| 0 <= i < after.len() implies directive_priority(
        (#[trigger] after[i]).priority,
    ) by {
        if directive_known(entries, entry.name) {
            if i != place {
                assert(after[i] == entries[i]);
            }
        } else if i < entries.len() {
            assert(after[i] == entries[i]);
        }
    }
}

/// Once a call among the first `k` is unknown, the first unknown call is settled.
pub proof fn first_unknown_settles(
    entries: Seq<DirectiveOutline>,
    calls: Seq<DirectiveCallView>,
    k: nat,
    n: nat,
)
    requires
        k <= n <= calls.len(),
        first_unknown(entries, calls, k) < k,
    ensures
        first_unknown(entries, calls, n) == first_unknown(entries, calls, k),
    decreases n,
{
    if k < n {
        first_unknown_settles(entries, calls, k, (n - 1) as nat);
    }
}

/// What registering `entry` leads to: with a priority in a band of the
/// directive interceptors it is put in; else nothing changes and the error
/// names the priority.
pub open spec fn directive_outcome(
    before: Seq<DirectiveOutline>,
    entry: DirectiveOutline,
    after: Seq<DirectiveOutline>,
    r: Result<(), LoomError>,
) -> bool {
    if directive_priority(entry.priority) {
        r is Ok && after == with_directive(before, entry)
    } else {
        r is Err && after == before && r->Err_0@ == ErrorView::plain(
            invalid_directive_priority(entry.priority),
        )
    }
}

/// Whether `entry` is what `interceptor` says of itself: the name of its
/// directive, its priority and whether it hands control on.
pub open spec fn says_of_itself<D: DirectiveInterceptor>(interceptor: &D, entry: DirectiveOutline) -> bool {
    exists|name: String, priority: i32|
        #[trigger] call_ensures(D::directive_name, (interceptor,), name) && #[trigger] call_ensures(
            D::priority,
            (interceptor,),
            priority,
        ) && call_ensures(D::need_chain, (interceptor,), entry.need_chain) && entry.name == name@
            && entry.priority == priority
}

impl<D: DirectiveInterceptor> DirectiveInterceptorManager<D> {
    /// What is registered, in the order in which the names were first registered.
    pub closed spec fn entries(&self) -> Seq<DirectiveOutline> {
        Seq::new(self.interceptors@.len(), |i: int| self.interceptors@[i].outline())
    }

    /// The interceptor that is registered for the directive called `name`.
    pub closed spec fn interceptor_of(&self, name: Seq<char>) -> D {
        self.interceptors@[directive_place(
            self.entries(),
            name,
            self.entries().len(),
        ) as int].interceptor
    }

    /// Whether `answer` is what the interceptor of `call` answered when it
    /// was asked to read the parameters of the call.
    pub open spec fn reads(
        &self,
        loom_context: &LoomContext,
        context: &ExecutionContext,
        call: &DirectiveCall,
        answer: Result<Dictionary<LoomValue>, LoomError>,
    ) -> bool {
        call_ensures(
            D::parse_parameters,
            (&self.interceptor_of(call.name@), loom_context, context, call),
            answer,
        )
    }

    /// Whether `read` holds for each call, in the order of the calls, the
    /// name of the call, the priority of its interceptor and whether that
    /// hands control on, and the parameters that the interceptor read from
    /// the call.
    pub open spec fn read_from(
        &self,
        loom_context: &LoomContext,
        context: &ExecutionContext,
        calls: Seq<DirectiveCall>,
        read: Seq<ActiveDirectiveInterceptor>,
    ) -> bool {
        read.len() == calls.len() && forall|k: int|
            0 <= k < calls.len() ==> (#[trigger] read[k])@.outline() == resolved(
                self.entries(),
                views(calls),
            )[k] && self.reads(loom_context, context, &calls[k], Ok(read[k].params))
    }

    /// Whether the interceptor of the call at place `k` answered the error
    /// `e` when it was asked to read the parameters of the call, after the
    /// interceptors of the calls before it had read theirs.
    pub open spec fn fails_at(
        &self,
        loom_context: &LoomContext,
        context: &ExecutionContext,
        calls: Seq<DirectiveCall>,
        k: int,
        e: LoomError,
    ) -> bool {
        0 <= k < calls.len() && self.reads(loom_context, context, &calls[k], Err(e)) && forall|
            j: int,
        |
            0 <= j < k ==> #[trigger] self.has_read(loom_context, context, &calls[j])
    }

    /// Whether `answer` is what the interceptor of a call that reads as
    /// `call` answered when it was asked to read the parameters of the call.
    pub open spec fn reads_of(
        &self,
        loom_context: &LoomContext,
        context: &ExecutionContext,
        call: DirectiveCallView,
        answer: Result<Dictionary<LoomValue>, LoomError>,
    ) -> bool {
        exists|c: DirectiveCall| c@ == call && #[trigger] self.reads(loom_context, context, &c, answer)
    }

    /// Whether the interceptor of a call that reads as `call` read the
    /// parameters of the call.
    pub open spec fn has_read_of(
        &self,
        loom_context: &LoomContext,
        context: &ExecutionContext,
        call: DirectiveCallView,
    ) -> bool {
        exists|p: Dictionary<LoomValue>| #[trigger] self.reads_of(loom_context, context, call, Ok(p))
    }

    /// Whether no registered interceptor can fail to read the parameters of
    /// a call, whatever the call and the state of the run.
    pub open spec fn never_fails(&self, loom_context: &LoomContext) -> bool {
        forall|
            context: ExecutionContext,
            call: DirectiveCall,
            answer: Result<Dictionary<LoomValue>, LoomError>,
        | #[trigger]
            self.reads(loom_context, &context, &call, answer) ==> answer is Ok
    }

    /// Whether the interceptor of `call` read the parameters of the call.
    pub open spec fn has_read(
        &self,
        loom_context: &LoomContext,
        context: &ExecutionContext,
        call: &DirectiveCall,
    ) -> bool {
        exists|p: Dictionary<LoomValue>| #[trigger]
            self.reads(loom_context, context, call, Ok(p))
    }

    pub fn new() -> (r: Self)
        ensures
            r.entries() == Seq::<DirectiveOutline>::empty(),
            orderly(r.entries()),
    {
        let r = DirectiveInterceptorManager { interceptors: Vec::new() };
        assert(r.entries() =~= Seq::<DirectiveOutline>::empty());
        r
    }

    fn find(&self, name: &str) -> (r: Option<usize>)
        ensures
            match r {
                Some(i) => i < self.entries().len() && i < self.interceptors@.len()
                    && directive_place(self.entries(), name@, self.entries().len()) == i
                    && self.entries()[i as int].name == name@,
                None => !directive_known(self.entries(), name@),
            },
    {
        let mut i: usize = 0;
        while i < self.interceptors.len()
            invariant
                i <= self.interceptors.len(),
                self.entries().len() == self.interceptors@.len(),
                directive_place(self.entries(), name@, i as nat) == i,
            decreases self.interceptors.len() - i,
        {
            if text_eq(self.interceptors[i].name.as_str(), name) {
                proof {
                    assert(self.entries()[i as int].name == name@);
                    directive_place_settles(
                        self.entries(),
                        name@,
                        (i + 1) as nat,
                        self.entries().len(),
                    );
                }
                return Some(i);
            }
            assert(self.entries()[i as int].name != name@);
            i += 1;
        }
        None
    }

    fn validate_directive_priority(priority: i32) -> (r: Result<(), LoomError>)
        ensures
            r is Ok <==> directive_priority(priority as int),
            r is Err ==> r->Err_0@ == ErrorView::plain(invalid_directive_priority(priority as int)),
    {
        if is_directive_priority(priority) {
            Ok(())
        } else {
            let mut message = String::from_str("Directive interceptor priority ");
            message.append(int_to_text(priority as i64).as_str());
            message.append(
                " is not in valid range. Use: DIRECTIVE_HIGH (7000-8000), DIRECTIVE_NORMAL (3000-5000), DIRECTIVE_SUPPORT (500-1000)",
            );
            Err(LoomError::from_message(message))
        }
    }

    /// Registers an interceptor under the name and the priority that it
    /// gives itself; see [`DirectiveInterceptorManager::register_entry`].
    pub fn register(&mut self, interceptor: D) -> (r: Result<(), LoomError>)
        ensures
            r is Err ==> final(self).entries() == old(self).entries(),
            exists|entry: DirectiveOutline| #[trigger]
                directive_outcome(old(self).entries(), entry, final(self).entries(), r)
                    && says_of_itself(&interceptor, entry) && (r is Ok
                    ==> final(self).interceptor_of(entry.name) == interceptor),
            orderly(old(self).entries()) ==> orderly(final(self).entries()),
    {
        let name = interceptor.directive_name();
        let priority = interceptor.priority();
        let need_chain = interceptor.need_chain();
        let ghost entry = DirectiveOutline { name: name@, priority: priority as int, need_chain };
        assert(says_of_itself(&interceptor, entry));
        let r = self.register_entry(name, priority, need_chain, interceptor);
        assert(directive_outcome(old(self).entries(), entry, self.entries(), r));
        r
    }

    /// Registers an interceptor by what the library reads of it. Fails, and
    /// changes nothing, where the priority lies in no band of the directive
    /// interceptors. A name that is registered already is registered anew in
    /// its old place.
    pub fn register_entry(&mut self, name: String, priority: i32, need_chain: bool, interceptor: D) -> (r:
        Result<(), LoomError>)
        ensures
            r is Ok <==> directive_priority(priority as int),
            r is Ok ==> final(self).entries() == with_directive(
                old(self).entries(),
                DirectiveOutline { name: name@, priority: priority as int, need_chain },
            ),
            r is Err ==> final(self).entries() == old(self).entries() && r->Err_0@
                == ErrorView::plain(invalid_directive_priority(priority as int)),
            r is Ok ==> final(self).interceptor_of(name@) == interceptor,
            forall|other: Seq<char>|
                other != name@ && directive_known(old(self).entries(), other)
                    ==> #[trigger] final(self).interceptor_of(other) == old(self).interceptor_of(
                    other,
                ),
            r is Err ==> *final(self) == *old(self),
            orderly(old(self).entries()) ==> orderly(final(self).entries()),
    {
        match DirectiveInterceptorManager::<D>::validate_directive_priority(priority) {
            Err(e) => {
                return Err(e);
            },
            Ok(_) => {},
        }
        let ghost before = self.entries();
        let ghost n = before.len();
        let entry = DirectiveRegistration { name, priority, need_chain, interceptor };
        proof {
            if orderly(before) {
                with_directive_stays_orderly(before, entry.outline());
            }
        }
        match self.find(entry.name.as_str()) {
            Some(i) => {
                self.interceptors.set(i, entry);
                assert(self.entries() =~= before.update(i as int, entry.outline()));
                proof {
                    let after = self.entries();
                    assert forall|other: Seq<char>|
                        directive_place(after, other, n) == directive_place(before, other, n) by {
                        directive_place_by_names(after, before, other, n);
                    }
                    assert forall|other: Seq<char>|
                        other != name@ && directive_known(before, other) implies #[trigger] self.interceptor_of(
                        other,
                    ) == old(self).interceptor_of(other) by {
                        directive_place_is_first(before, other, n);
                    }
                }
            },
            None => {
                self.interceptors.push(entry);
                assert(self.entries() =~= before.push(entry.outline()));
                proof {
                    let after = self.entries();
                    assert forall|other: Seq<char>|
                        directive_place(after, other, n) == directive_place(before, other, n) by {
                        directive_place_by_names(after, before, other, n);
                    }
                    assert forall|other: Seq<char>|
                        other != name@ && directive_known(before, other) implies #[trigger] self.interceptor_of(
                        other,
                    ) == old(self).interceptor_of(other) by {
                        directive_place_settles(after, other, n, n + 1);
                    }
                }
            },
        }
        Ok(())
    }

    /// The interceptors of the directive calls of one node, the highest
    /// priority first. A call whose directive is not registered fails the
    /// whole before any call is read. The parameters of each call are what
    /// its interceptor reads from it; where one fails to read them, its error
    /// is handed back. So the whole succeeds where every directive is
    /// registered and no interceptor can fail to read its call.
    pub fn build_active(
        &self,
        loom_context: &LoomContext,
        context: &ExecutionContext,
        directives: &Vec<DirectiveCall>,
    ) -> (r: Result<Vec<ActiveDirectiveInterceptor>, LoomError>)
        ensures
            !all_known(self.entries(), views(directives@)) ==> r is Err && r->Err_0@
                == ErrorView::plain(
                unknown_directive(
                    directives@[first_unknown(
                        self.entries(),
                        views(directives@),
                        directives@.len(),
                    ) as int].name@,
                ),
            ),
            r is Ok ==> outlines(views(r->Ok_0@)) == active_outlines(
                self.entries(),
                views(directives@),
            ),
            directives@.len() == 0 ==> r is Ok && r->Ok_0@.len() == 0,
            r is Ok ==> exists|read: Seq<ActiveDirectiveInterceptor>| #[trigger]
                self.read_from(loom_context, context, directives@, read) && r->Ok_0@
                    == stable_sort(read, rank_of::<ActiveDirectiveInterceptor>()),
            r is Err && all_known(self.entries(), views(directives@)) ==> exists|k: int| #[trigger]
                self.fails_at(loom_context, context, directives@, k, r->Err_0),
            all_known(self.entries(), views(directives@)) && (forall|
                k: int,
                answer: Result<Dictionary<LoomValue>, LoomError>,
            |
                0 <= k < directives@.len() && #[trigger] self.reads(
                    loom_context,
                    context,
                    &directives@[k],
                    answer,
                ) ==> answer is Ok) ==> r is Ok,
            all_known(self.entries(), views(directives@)) && self.never_fails(loom_context)
                ==> r is Ok,
            r is Ok ==> forall|k: int|
                0 <= k < directives@.len() ==> self.has_read_of(
                    loom_context,
                    context,
                    #[trigger] views(directives@)[k],
                ),
            r is Err && all_known(self.entries(), views(directives@)) ==> exists|k: int|
                0 <= k < directives@.len() && #[trigger] self.reads_of(
                    loom_context,
                    context,
                    views(directives@)[k],
                    Err(r->Err_0),
                ),
    {
        let ghost calls = views(directives@);
        let mut places: Vec<usize> = Vec::new();
        let mut i: usize = 0;
        while i < directives.len()
            invariant
                i <= directives.len(),
                calls == views(directives@),
                places.len() == i,
                self.entries().len() == self.interceptors@.len(),
                first_unknown(self.entries(), calls, i as nat) == i,
                forall|j: int|
                    0 <= j < i ==> (#[trigger] places@[j]) < self.interceptors@.len()
                        && places@[j] == directive_place(
                        self.entries(),
                        calls[j].name,
                        self.entries().len(),
                    ),
            decreases directives.len() - i,
        {
            match self.find(directives[i].name.as_str()) {
                Some(place) => {
                    places.push(place);
                },
                None => {
                    proof {
                        first_unknown_settles(
                            self.entries(),
                            calls,
                            (i + 1) as nat,
                            directives@.len(),
                        );
                    }
                    let mut message = String::from_str("Unknown directive: ");
                    message.append(directives[i].name.as_str());
                    return Err(LoomError::from_message(message));
                },
            }
            i += 1;
        }
        let mut active: Vec<ActiveDirectiveInterceptor> = Vec::new();
        let mut k: usize = 0;
        while k < directives.len()
            invariant
                k <= directives.len(),
                calls == views(directives@),
                places.len() == directives.len(),
                all_known(self.entries(), calls),
                active.len() == k,
                self.entries().len() == self.interceptors@.len(),
                forall|j: int|
                    0 <= j < directives.len() ==> (#[trigger] places@[j]) < self.interceptors@.len()
                        && places@[j] == directive_place(
                        self.entries(),
                        calls[j].name,
                        self.entries().len(),
                    ),
                forall|j: int|
                    0 <= j < k ==> (#[trigger] active@[j])@.outline() == resolved(
                        self.entries(),
                        calls,
                    )[j] && self.reads(
                        loom_context,
                        context,
                        &directives@[j],
                        Ok(active@[j].params),
                    ),
            decreases directives.len() - k,
        {
            let registration = &self.interceptors[places[k]];
            assert(registration.interceptor == self.interceptor_of(directives@[k as int].name@)) by {
                assert(calls[k as int] == directives@[k as int]@);
            }
            let params = match registration.interceptor.parse_parameters(
                loom_context,
                context,
                &directives[k],
            ) {
                Ok(p) => p,
                Err(e) => {
                    proof {
                        assert(self.reads(loom_context, context, &directives@[k as int], Err(e)));
                        assert forall|j: int| 0 <= j < k implies #[trigger] self.has_read(
                            loom_context,
                            context,
                            &directives@[j],
                        ) by {
                            assert(self.reads(
                                loom_context,
                                context,
                                &directives@[j],
                                Ok(active@[j].params),
                            ));
                        }
                        assert(self.fails_at(loom_context, context, directives@, k as int, e));
                        assert(self.reads_of(loom_context, context, calls[k as int], Err(e)));
                    }
                    return Err(e);
                },
            };
            assert(self.reads(loom_context, context, &directives@[k as int], Ok(params)));
            assert(self.entries()[places@[k as int] as int] == registration.outline());
            active.push(
                ActiveDirectiveInterceptor {
                    params,
                    name: directives[k].name.clone(),
                    priority: registration.priority,
                    need_chain: registration.need_chain,
                },
            );
            k += 1;
        }
        proof {
            let f = |x: ActiveDirectiveInterceptor| x@.outline();
            assert forall|a: ActiveDirectiveInterceptor| #[trigger]
                outline_rank()(f(a)) == rank_of::<ActiveDirectiveInterceptor>()(a) by {}
            sorted_prefix_of_mapped(
                active@,
                active@.len(),
                rank_of::<ActiveDirectiveInterceptor>(),
                f,
                outline_rank(),
            );
            assert(active@.map_values(f) =~= resolved(self.entries(), calls));
            let sorted = stable_sort(active@, rank_of::<ActiveDirectiveInterceptor>());
            assert(sorted.map_values(f) =~= outlines(views(sorted)));
            stable_sort_properties(active@, rank_of::<ActiveDirectiveInterceptor>());
            assert(self.read_from(loom_context, context, directives@, active@));
            assert forall|k: int| 0 <= k < directives@.len() implies self.has_read_of(
                loom_context,
                context,
                #[trigger] calls[k],
            ) by {
                assert(calls[k] == directives@[k]@);
                assert(self.reads(loom_context, context, &directives@[k], Ok(active@[k].params)));
                assert(self.reads_of(loom_context, context, calls[k], Ok(active@[k].params)));
            }
        }
        Ok(sort_by_priority(active))
    }
}

} // verus!

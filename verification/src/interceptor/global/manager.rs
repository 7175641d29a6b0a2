//! The registry of global interceptors.

use vstd::prelude::*;
use vstd::string::*;
use crate::dictionary::Dictionary;
use crate::error::{ErrorView, LoomError};
use crate::interceptor::context::ExecutionContext;
use crate::interceptor::global::config::{ConfigView, GlobalInterceptorConfig};
use crate::interceptor::global::interceptor::{
    activates, day_start, moment_free, moment_free_conditions_hold_alike, should_activate_at,
    surroundings_of, GlobalInterceptor, Moment, Surroundings, TimeOfDay,
};
use crate::interceptor::global::{ActiveGlobalInterceptor, ActiveGlobalView};
use crate::interceptor::priority::{
    global_priority,
    is_global_priority,
    sort_by_priority,
    sorted_views,
    stable_sort,
};
use crate::text::{int_text, int_to_text, text_eq};
use crate::types::optional_text;
use crate::views::views;

verus! {

/// A registered global interceptor.
#[derive(Debug)]
pub struct GlobalRegistration {
    pub name: String,
    pub config: GlobalInterceptorConfig,
    pub need_chain: bool,
}

/// A registration as the contracts see it.
pub struct RegistrationView {
    pub name: Seq<char>,
    pub config: ConfigView,
    pub need_chain: bool,
}

impl View for GlobalRegistration {
    type V = RegistrationView;

    open spec fn view(&self) -> RegistrationView {
        RegistrationView { name: self.name@, config: self.config@, need_chain: self.need_chain }
    }
}

/// The registry of global interceptors, in the order of registration.
///
/// It is a list and not a hash map: the order of registration decides
/// between interceptors of equal priority, and of a hash map keyed by text
/// vstd states nothing (see [`crate::dictionary`]). [`orderly`] is the
/// invariant that its functions keep.
#[derive(Debug)]
pub struct GlobalInterceptorManager {
    entries: Vec<GlobalRegistration>,
    user_overrides: Dictionary<bool>,
}

/// The message for a priority outside the bands of global interceptors.
pub open spec fn invalid_global_priority(priority: int) -> Seq<char> {
    "Global interceptor priority "@ + int_text(priority)
        + " is not in valid range. Use: CRITICAL_SYSTEM (9000-10000), GLOBAL_HIGH (8000-9000), GLOBAL_NORMAL (5000-7000), GLOBAL_SUPPORT (1000-3000), MONITORING (0-500)"@
}

/// The message for a name that is not registered.
pub open spec fn global_not_found(name: Seq<char>) -> Seq<char> {
    "Global interceptor '"@ + name + "' not found"@
}

/// The message for an interceptor that the user may not switch.
pub open spec fn global_not_overridable(name: Seq<char>) -> Seq<char> {
    "Global interceptor '"@ + name + "' cannot be overridden"@
}

/// The place of the registration called `name` among the first `n`, or `n`.
pub open spec fn place_of(entries: Seq<RegistrationView>, name: Seq<char>, n: nat) -> nat
    decreases n,
{
    if n == 0 || n > entries.len() {
        n
    } else {
        let before = place_of(entries, name, (n - 1) as nat);
        if before < n - 1 {
            before
        } else if entries[n - 1].name == name {
            (n - 1) as nat
        } else {
            n
        }
    }
}

/// Whether a registration is called `name`.
pub open spec fn registered(entries: Seq<RegistrationView>, name: Seq<char>) -> bool {
    place_of(entries, name, entries.len()) < entries.len()
}

/// The registrations with `entry` put in: in the place of the first one of
/// its name, or at the end where the name is new.
pub open spec fn with_entry(entries: Seq<RegistrationView>, entry: RegistrationView) -> Seq<
    RegistrationView,
> {
    if registered(entries, entry.name) {
        entries.update(place_of(entries, entry.name, entries.len()) as int, entry)
    } else {
        entries.push(entry)
    }
}

/// Whether the registrations are in order: no two have the same name, and
/// every priority lies in a band of the global interceptors.
pub open spec fn orderly(entries: Seq<RegistrationView>) -> bool {
    &&& forall|i: int, j: int|
        0 <= i < j < entries.len() ==> (#[trigger] entries[i]).name != (#[trigger] entries[j]).name
    &&& forall|i: int|
        0 <= i < entries.len() ==> global_priority((#[trigger] entries[i]).config.priority)
}

/// The place of a name among the first `n` holds the name, and no place
/// before it does.
pub proof fn place_of_is_first(entries: Seq<RegistrationView>, name: Seq<char>, n: nat)
    requires
        n <= entries.len(),
    ensures
        place_of(entries, name, n) <= n,
        place_of(entries, name, n) < n ==> entries[place_of(entries, name, n) as int].name == name,
        forall|j: int| 0 <= j < place_of(entries, name, n) ==> (#[trigger] entries[j]).name != name,
    decreases n,
{
    if n > 0 {
        place_of_is_first(entries, name, (n - 1) as nat);
    }
}

/// Registrations that are in order stay in order when an entry whose
/// priority lies in a band of the global interceptors is put in.
pub proof fn with_entry_stays_orderly(entries: Seq<RegistrationView>, entry: RegistrationView)
    requires
        orderly(entries),
        global_priority(entry.config.priority),
    ensures
        orderly(with_entry(entries, entry)),
{
    place_of_is_first(entries, entry.name, entries.len());
    let after = with_entry(entries, entry);
    let place = place_of(entries, entry.name, entries.len()) as int;
    assert forall|i: int, j: int| 0 <= i < j < after.len() implies (#[trigger] after[i]).name != (
    #[trigger] after[j]).name by {
        if registered(entries, entry.name) {
            assert(after[i].name == entries[i].name);
            assert(after[j].name == entries[j].name);
        } else if j == entries.len() {
            assert(after[i] == entries[i]);
        } else {
            assert(after[i] == entries[i]);
            assert(after[j] == entries[j]);
        }
    }
    assert forall|i: int| 0 <= i < after.len() implies global_priority(
        (#[trigger] after[i]).config.priority,
    ) by {
        if registered(entries, entry.name) {
            if i != place {
                assert(after[i] == entries[i]);
            }
        } else if i < entries.len() {
            assert(after[i] == entries[i]);
        }
    }
}

/// The configuration that an interceptor runs under: its own, switched on or
/// off by the user where the user has said so and the interceptor allows it.
pub open spec fn effective_config(entry: RegistrationView, overrides: Map<Seq<char>, bool>) -> ConfigView {
    if entry.config.user_overridable && overrides.contains_key(entry.name) {
        ConfigView {
            enabled: overrides[entry.name],
            priority: entry.config.priority,
            conditions: entry.config.conditions,
            parameters: entry.config.parameters,
            user_overridable: entry.config.user_overridable,
        }
    } else {
        entry.config
    }
}

/// Those of the first `n` registrations that take part, in their order.
pub open spec fn selected(
    entries: Seq<RegistrationView>,
    n: nat,
    overrides: Map<Seq<char>, bool>,
    around: Surroundings,
) -> Seq<ActiveGlobalView>
    decreases n,
{
    if n == 0 || n > entries.len() {
        Seq::empty()
    } else {
        let before = selected(entries, (n - 1) as nat, overrides, around);
        let config = effective_config(entries[n - 1], overrides);
        if activates(config, around) {
            before.push(
                ActiveGlobalView {
                    config,
                    name: entries[n - 1].name,
                    need_chain: entries[n - 1].need_chain,
                },
            )
        } else {
            before
        }
    }
}

/// The priority of an active global interceptor.
pub open spec fn global_rank() -> spec_fn(ActiveGlobalView) -> int {
    |g: ActiveGlobalView| g.config.priority
}

/// The global interceptors that take part in a run, the highest priority
/// first; those of equal priority in the order of their registration.
pub open spec fn active_globals(
    entries: Seq<RegistrationView>,
    overrides: Map<Seq<char>, bool>,
    around: Surroundings,
) -> Seq<ActiveGlobalView> {
    stable_sort(selected(entries, entries.len(), overrides, around), global_rank())
}

/// Whether no registered interceptor has a condition that reads the clock
/// or the name of the working directory.
pub open spec fn all_moment_free(entries: Seq<RegistrationView>) -> bool {
    forall|i: int| 0 <= i < entries.len() ==> moment_free((#[trigger] entries[i]).config.conditions)
}

/// Where no registered interceptor reads the clock or the name of the
/// working directory, the same of the first `n` take part whatever the moment.
pub proof fn moment_free_selection(
    entries: Seq<RegistrationView>,
    n: nat,
    overrides: Map<Seq<char>, bool>,
    a: Surroundings,
    b: Surroundings,
)
    requires
        n <= entries.len(),
        all_moment_free(entries),
        a.scope == b.scope,
        a.env == b.env,
    ensures
        selected(entries, n, overrides, a) == selected(entries, n, overrides, b),
    decreases n,
{
    if n > 0 {
        moment_free_selection(entries, (n - 1) as nat, overrides, a, b);
        let config = effective_config(entries[n - 1], overrides);
        assert(config.conditions == entries[n - 1].config.conditions);
        moment_free_conditions_hold_alike(config.conditions, config.conditions.len(), a, b);
    }
}

/// Where no registered interceptor reads the clock or the name of the
/// working directory, the same interceptors take part whatever the moment.
pub proof fn moment_free_globals(
    entries: Seq<RegistrationView>,
    overrides: Map<Seq<char>, bool>,
    a: Surroundings,
    b: Surroundings,
)
    requires
        all_moment_free(entries),
        a.scope == b.scope,
        a.env == b.env,
    ensures
        active_globals(entries, overrides, a) == active_globals(entries, overrides, b),
{
    moment_free_selection(entries, entries.len(), overrides, a, b);
}

/// An interceptor that is switched off, by its configuration or by the
/// user, takes no part.
pub proof fn disabled_is_absent(
    entries: Seq<RegistrationView>,
    n: nat,
    overrides: Map<Seq<char>, bool>,
    around: Surroundings,
    i: int,
)
    requires
        n <= entries.len(),
        0 <= i < selected(entries, n, overrides, around).len(),
    ensures
        selected(entries, n, overrides, around)[i].config.enabled,
        activates(selected(entries, n, overrides, around)[i].config, around),
    decreases n,
{
    if n > 0 {
        let before = selected(entries, (n - 1) as nat, overrides, around);
        if i < before.len() {
            disabled_is_absent(entries, (n - 1) as nat, overrides, around, i);
        }
    }
}

/// What registering `entry` leads to: with a priority in a band of the
/// global interceptors it is put in; else nothing changes and the error
/// names the priority.
pub open spec fn registration_outcome(
    before: Seq<RegistrationView>,
    entry: RegistrationView,
    after: Seq<RegistrationView>,
    r: Result<(), LoomError>,
) -> bool {
    if global_priority(entry.config.priority) {
        r is Ok && after == with_entry(before, entry)
    } else {
        r is Err && after == before && r->Err_0@ == ErrorView::plain(
            invalid_global_priority(entry.config.priority),
        )
    }
}

/// Whether `entry` is what `interceptor` says of itself: its name, its
/// default configuration and whether it hands control on.
pub open spec fn says_of_itself<G: GlobalInterceptor>(interceptor: &G, entry: RegistrationView) -> bool {
    exists|name: String, config: GlobalInterceptorConfig|
        #[trigger] call_ensures(G::name, (interceptor,), name) && #[trigger] call_ensures(
            G::default_config,
            (interceptor,),
            config,
        ) && call_ensures(G::need_chain, (interceptor,), entry.need_chain) && entry.name == name@
            && entry.config == config@
}

impl GlobalInterceptorManager {
    /// The registrations, in the order in which their names were first registered.
    pub closed spec fn entries(&self) -> Seq<RegistrationView> {
        views(self.entries@)
    }

    /// What the user has switched on or off.
    pub closed spec fn overrides(&self) -> Map<Seq<char>, bool> {
        self.user_overrides@
    }

    pub fn new() -> (r: Self)
        ensures
            orderly(r.entries()),
            r.entries() == Seq::<RegistrationView>::empty(),
            r.overrides() == Map::<Seq<char>, bool>::empty(),
    {
        let r = GlobalInterceptorManager { entries: Vec::new(), user_overrides: Dictionary::new() };
        assert(r.entries() =~= Seq::<RegistrationView>::empty());
        r
    }

    /// The place of the registration called `name`.
    fn find(&self, name: &str) -> (r: Option<usize>)
        ensures
            match r {
                Some(i) => i < self.entries().len() && place_of(
                    self.entries(),
                    name@,
                    self.entries().len(),
                ) == i && self.entries()[i as int].name == name@,
                None => !registered(self.entries(), name@),
            },
    {
        let mut i: usize = 0;
        while i < self.entries.len()
            invariant
                i <= self.entries.len(),
                place_of(self.entries(), name@, i as nat) == i,
            decreases self.entries.len() - i,
        {
            if text_eq(self.entries[i].name.as_str(), name) {
                proof {
                    place_settles(self.entries(), name@, (i + 1) as nat, self.entries().len());
                }
                return Some(i);
            }
            i += 1;
        }
        None
    }

    fn validate_global_priority(priority: i32) -> (r: Result<(), LoomError>)
        ensures
            r is Ok <==> global_priority(priority as int),
            r is Err ==> r->Err_0@ == ErrorView::plain(invalid_global_priority(priority as int)),
    {
        if is_global_priority(priority) {
            Ok(())
        } else {
            let mut message = String::from_str("Global interceptor priority ");
            message.append(int_to_text(priority as i64).as_str());
            message.append(
                " is not in valid range. Use: CRITICAL_SYSTEM (9000-10000), GLOBAL_HIGH (8000-9000), GLOBAL_NORMAL (5000-7000), GLOBAL_SUPPORT (1000-3000), MONITORING (0-500)",
            );
            Err(LoomError::from_message(message))
        }
    }

    /// Registers an interceptor under its own name and default configuration.
    /// What is registered is what its methods hand back; see
    /// [`GlobalInterceptorManager::register_entry`].
    pub fn register<G: GlobalInterceptor>(&mut self, interceptor: &G) -> (r: Result<(), LoomError>)
        ensures
            final(self).overrides() == old(self).overrides(),
            r is Err ==> final(self).entries() == old(self).entries(),
            exists|entry: RegistrationView| #[trigger]
                registration_outcome(old(self).entries(), entry, final(self).entries(), r)
                    && says_of_itself(interceptor, entry),
            orderly(old(self).entries()) ==> orderly(final(self).entries()),
    {
        let name = interceptor.name();
        let config = interceptor.default_config();
        let need_chain = interceptor.need_chain();
        let ghost entry = RegistrationView { name: name@, config: config@, need_chain };
        assert(says_of_itself(interceptor, entry));
        let r = self.register_entry(name, config, need_chain);
        assert(registration_outcome(old(self).entries(), entry, self.entries(), r));
        r
    }

    /// Registers an interceptor by what the library reads of it. Fails, and
    /// changes nothing, where the priority lies in no band of the global
    /// interceptors. A name that is registered already is registered anew in
    /// its old place.
    pub fn register_entry(&mut self, name: String, config: GlobalInterceptorConfig, need_chain: bool) -> (r:
        Result<(), LoomError>)
        ensures
            final(self).overrides() == old(self).overrides(),
            r is Ok <==> global_priority(config.priority as int),
            r is Ok ==> final(self).entries() == with_entry(
                old(self).entries(),
                RegistrationView { name: name@, config: config@, need_chain },
            ),
            r is Err ==> final(self).entries() == old(self).entries() && r->Err_0@
                == ErrorView::plain(invalid_global_priority(config.priority as int)),
            orderly(old(self).entries()) ==> orderly(final(self).entries()),
    {
        match GlobalInterceptorManager::validate_global_priority(config.priority) {
            Err(e) => {
                return Err(e);
            },
            Ok(_) => {},
        }
        let ghost before = self.entries();
        let entry = GlobalRegistration { name, config, need_chain };
        match self.find(entry.name.as_str()) {
            Some(i) => {
                self.entries.set(i, entry);
                assert(self.entries() =~= before.update(i as int, entry@));
            },
            None => {
                self.entries.push(entry);
                assert(self.entries() =~= before.push(entry@));
            },
        }
        proof {
            if orderly(before) {
                with_entry_stays_orderly(before, entry@);
            }
        }
        Ok(())
    }

    /// Replaces the configuration of a registered interceptor. Fails, and
    /// changes nothing, where the name is not registered or the priority lies
    /// in no band of the global interceptors.
    pub fn configure(&mut self, name: &str, config: GlobalInterceptorConfig) -> (r: Result<
        (),
        LoomError,
    >)
        ensures
            final(self).overrides() == old(self).overrides(),
            r is Ok <==> registered(old(self).entries(), name@) && global_priority(
                config.priority as int,
            ),
            r is Ok ==> final(self).entries() == with_entry(
                old(self).entries(),
                RegistrationView {
                    name: name@,
                    config: config@,
                    need_chain: old(self).entries()[place_of(
                        old(self).entries(),
                        name@,
                        old(self).entries().len(),
                    ) as int].need_chain,
                },
            ),
            r is Err ==> final(self).entries() == old(self).entries(),
            r is Err ==> r->Err_0@ == if !registered(old(self).entries(), name@) {
                ErrorView::plain(global_not_found(name@))
            } else {
                ErrorView::plain(invalid_global_priority(config.priority as int))
            },
            orderly(old(self).entries()) ==> orderly(final(self).entries()),
    {
        let place = match self.find(name) {
            Some(i) => i,
            None => {
                let mut message = String::from_str("Global interceptor '");
                message.append(name);
                message.append("' not found");
                return Err(LoomError::from_message(message));
            },
        };
        match GlobalInterceptorManager::validate_global_priority(config.priority) {
            Err(e) => {
                return Err(e);
            },
            Ok(_) => {},
        }
        let ghost before = self.entries();
        let need_chain = self.entries[place].need_chain;
        let entry = GlobalRegistration { name: String::from_str(name), config, need_chain };
        self.entries.set(place, entry);
        assert(self.entries() =~= before.update(place as int, entry@));
        proof {
            if orderly(before) {
                with_entry_stays_orderly(before, entry@);
            }
        }
        Ok(())
    }

    /// Switches a registered interceptor on or off for the user. Fails, and
    /// changes nothing, where the name is not registered or the interceptor
    /// does not allow it.
    pub fn set_user_override(&mut self, name: &str, enabled: bool) -> (r: Result<(), LoomError>)
        ensures
            final(self).entries() == old(self).entries(),
            orderly(old(self).entries()) ==> orderly(final(self).entries()),
            r is Ok <==> registered(old(self).entries(), name@) && old(self).entries()[place_of(
                old(self).entries(),
                name@,
                old(self).entries().len(),
            ) as int].config.user_overridable,
            r is Ok ==> final(self).overrides() == old(self).overrides().insert(name@, enabled),
            r is Err ==> final(self).overrides() == old(self).overrides(),
            r is Err ==> r->Err_0@ == if !registered(old(self).entries(), name@) {
                ErrorView::plain(global_not_found(name@))
            } else {
                ErrorView::plain(global_not_overridable(name@))
            },
    {
        let place = match self.find(name) {
            Some(i) => i,
            None => {
                let mut message = String::from_str("Global interceptor '");
                message.append(name);
                message.append("' not found");
                return Err(LoomError::from_message(message));
            },
        };
        if !self.entries[place].config.user_overridable {
            let mut message = String::from_str("Global interceptor '");
            message.append(name);
            message.append("' cannot be overridden");
            return Err(LoomError::from_message(message));
        }
        self.user_overrides.insert(String::from_str(name), enabled);
        Ok(())
    }

    /// The interceptors that take part in the run at the given moment, the
    /// highest priority first.
    pub fn get_active_at(&self, context: &ExecutionContext, moment: &Moment) -> (r: Vec<
        ActiveGlobalInterceptor,
    >)
        ensures
            views(r@) == active_globals(
                self.entries(),
                self.overrides(),
                surroundings_of(context, optional_text(moment.workspace), moment.now),
            ),
    {
        let ghost around = surroundings_of(context, optional_text(moment.workspace), moment.now);
        let mut active: Vec<ActiveGlobalInterceptor> = Vec::new();
        let mut i: usize = 0;
        while i < self.entries.len()
            invariant
                i <= self.entries.len(),
                around == surroundings_of(context, optional_text(moment.workspace), moment.now),
                views(active@) == selected(self.entries(), i as nat, self.overrides(), around),
            decreases self.entries.len() - i,
        {
            let entry = &self.entries[i];
            let mut config = entry.config.clone();
            if config.user_overridable {
                match self.user_overrides.get(entry.name.as_str()) {
                    Some(enabled) => {
                        config.enabled = *enabled;
                    },
                    None => {},
                }
            }
            assert(config@ == effective_config(self.entries()[i as int], self.overrides()));
            if should_activate_at(&config, context, moment) {
                let item = ActiveGlobalInterceptor {
                    config,
                    name: entry.name.clone(),
                    need_chain: entry.need_chain,
                };
                proof {
                    crate::views::views_push(active@, item);
                }
                active.push(item);
            }
            i += 1;
        }
        proof {
            assert(views(Seq::<ActiveGlobalInterceptor>::empty()) =~= Seq::<ActiveGlobalView>::empty());
            sorted_views::<ActiveGlobalInterceptor>(active@, global_rank());
        }
        sort_by_priority(active)
    }

    /// The interceptors that take part in the run now, the highest priority
    /// first. The clock and the name of the working directory are read once.
    /// A run without a working directory has no workspace; where no
    /// registered interceptor reads the clock or the working directory, the
    /// same interceptors take part at every moment.
    pub fn get_active(&self, context: &ExecutionContext) -> (r: Vec<ActiveGlobalInterceptor>)
        ensures
            exists|workspace: Option<Seq<char>>, now: TimeOfDay|
                views(r@) == #[trigger] active_globals(
                    self.entries(),
                    self.overrides(),
                    surroundings_of(context, workspace, now),
                ),
            context.working_dir is None ==> exists|now: TimeOfDay|
                views(r@) == #[trigger] active_globals(
                    self.entries(),
                    self.overrides(),
                    surroundings_of(context, None, now),
                ),
            all_moment_free(self.entries()) ==> views(r@) == active_globals(
                self.entries(),
                self.overrides(),
                surroundings_of(context, None, day_start()),
            ),
    {
        let moment = Moment::observe(context);
        let r = self.get_active_at(context, &moment);
        let ghost around = surroundings_of(context, optional_text(moment.workspace), moment.now);
        assert(views(r@) == active_globals(self.entries(), self.overrides(), around));
        proof {
            if all_moment_free(self.entries()) {
                moment_free_globals(
                    self.entries(),
                    self.overrides(),
                    around,
                    surroundings_of(context, None, day_start()),
                );
            }
        }
        r
    }
}

/// Once the name is found among the first `k` registrations, its place is settled.
pub proof fn place_settles(entries: Seq<RegistrationView>, name: Seq<char>, k: nat, n: nat)
    requires
        k <= n <= entries.len(),
        place_of(entries, name, k) < k,
    ensures
        place_of(entries, name, n) == place_of(entries, name, k),
    decreases n,
{
    if k < n {
        place_settles(entries, name, k, (n - 1) as nat);
    }
}

} // verus!

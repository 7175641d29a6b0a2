//! When a global interceptor takes part in a run.

use vstd::prelude::*;
use vstd::string::*;
use crate::dictionary::text_map;
use crate::error::clone_texts;
use crate::interceptor::context::ExecutionContext;
use crate::interceptor::global::config::{ConfigView, GlobalInterceptorConfig};
use crate::interceptor::global::GlobalInterceptorCategory;
use crate::interceptor::scope::ExecutionScope;
use crate::text::{text_eq, texts};
use crate::types::optional_text;
use crate::views::views;

verus! {

/// `regex::Regex`, a compiled pattern. The library carries it and never
/// looks inside.
#[verifier::external_type_specification]
#[verifier::external_body]
pub struct ExRegex(regex::Regex);

/// `Clone::clone` of `regex::Regex`. Nothing is claimed of the copy.
pub assume_specification[ <regex::Regex as Clone>::clone ](pattern: &regex::Regex) -> regex::Regex;

/// A condition under which a global interceptor takes part.
#[derive(Debug)]
pub enum ActivationCondition {
    /// Only for runs started on these kinds of node: `command`, `pipeline`,
    /// `job` or `other`.
    TargetType(Vec<String>),
    /// Only in these environments, such as `production`.
    Environment(Vec<String>),
    /// Only for commands that match the pattern. Not decided yet: never holds.
    CommandPattern(regex::Regex),
    /// Only in working directories of these names.
    Workspace(Vec<String>),
    /// Only between two times of day, each written `HH:MM`.
    TimeWindow { start: String, end: String },
    /// An expression. Not decided yet: always holds.
    Custom(String),
}

/// A condition as the contracts see it.
pub enum ConditionView {
    TargetType(Seq<Seq<char>>),
    Environment(Seq<Seq<char>>),
    CommandPattern,
    Workspace(Seq<Seq<char>>),
    TimeWindow { start: Seq<char>, end: Seq<char> },
    Custom(Seq<char>),
}

impl View for ActivationCondition {
    type V = ConditionView;

    open spec fn view(&self) -> ConditionView {
        match self {
            ActivationCondition::TargetType(types) => ConditionView::TargetType(texts(types@)),
            ActivationCondition::Environment(names) => ConditionView::Environment(texts(names@)),
            ActivationCondition::CommandPattern(_) => ConditionView::CommandPattern,
            ActivationCondition::Workspace(names) => ConditionView::Workspace(texts(names@)),
            ActivationCondition::TimeWindow { start, end } => ConditionView::TimeWindow {
                start: start@,
                end: end@,
            },
            ActivationCondition::Custom(expression) => ConditionView::Custom(expression@),
        }
    }
}

impl Clone for ActivationCondition {
    fn clone(&self) -> (r: Self)
        ensures
            r@ == self@,
    {
        match self {
            ActivationCondition::TargetType(types) => ActivationCondition::TargetType(
                clone_texts(types),
            ),
            ActivationCondition::Environment(names) => ActivationCondition::Environment(
                clone_texts(names),
            ),
            ActivationCondition::CommandPattern(pattern) => ActivationCondition::CommandPattern(
                pattern.clone(),
            ),
            ActivationCondition::Workspace(names) => ActivationCondition::Workspace(
                clone_texts(names),
            ),
            ActivationCondition::TimeWindow { start, end } => ActivationCondition::TimeWindow {
                start: start.clone(),
                end: end.clone(),
            },
            ActivationCondition::Custom(expression) => ActivationCondition::Custom(
                expression.clone(),
            ),
        }
    }
}

/// A time of day: whole seconds since midnight and the nanoseconds past them.
#[derive(Debug, Clone, Copy, PartialEq, Eq, Structural)]
pub struct TimeOfDay {
    pub seconds: u32,
    pub nanos: u32,
}

impl TimeOfDay {
    /// Whether `self` is not later than `other`.
    pub open spec fn not_after(self, other: TimeOfDay) -> bool {
        self.seconds < other.seconds || (self.seconds == other.seconds && self.nanos
            <= other.nanos)
    }

    pub fn is_not_after(self, other: TimeOfDay) -> (r: bool)
        ensures
            r == self.not_after(other),
    {
        self.seconds < other.seconds || (self.seconds == other.seconds && self.nanos
            <= other.nanos)
    }
}

/// Midnight, the start of a window whose start cannot be read.
pub open spec fn day_start() -> TimeOfDay {
    TimeOfDay { seconds: 0, nanos: 0 }
}

/// 23:59:59, the end of a window whose end cannot be read.
pub open spec fn day_end() -> TimeOfDay {
    TimeOfDay { seconds: 86399, nanos: 0 }
}

/// The time of day that chrono reads from a text in the format `%H:%M`.
pub uninterp spec fn clock_time_of(text: Seq<char>) -> Option<TimeOfDay>;

/// Reads a time of day with `chrono::NaiveTime::parse_from_str` and the
/// format `%H:%M`, and hands back its seconds since midnight and its
/// nanoseconds. The result is a function of the text alone.
#[verifier::external_body]
fn parse_clock_time(text: &str) -> (r: Option<TimeOfDay>)
    ensures
        r == clock_time_of(text@),
{
    match chrono::NaiveTime::parse_from_str(text, "%H:%M") {
        Ok(t) => Some(
            TimeOfDay {
                seconds: chrono::Timelike::num_seconds_from_midnight(&t),
                nanos: chrono::Timelike::nanosecond(&t),
            },
        ),
        Err(_) => None,
    }
}

/// The local time of day, from `chrono::Local::now`. Nothing is promised
/// about it. The call panics where the clock of the machine stands
/// before 1970 or the time zone data of the machine gives no local time;
/// no argument decides that.
#[verifier::external_body]
fn local_time_of_day() -> (r: TimeOfDay) {
    let t = chrono::Local::now().time();
    TimeOfDay {
        seconds: chrono::Timelike::num_seconds_from_midnight(&t),
        nanos: chrono::Timelike::nanosecond(&t),
    }
}

/// The last component of a path, from `std::path::Path::file_name`, where it
/// has one that is valid text. What counts as a component depends on the
/// platform, so nothing is promised about it.
#[verifier::external_body]
fn directory_name(path: &str) -> (r: Option<String>) {
    Some(std::path::Path::new(path).file_name()?.to_str()?.to_string())
}

/// What a run looks like to the activation conditions.
pub struct Surroundings {
    /// The kind of node the run was started on.
    pub scope: ExecutionScope,
    /// The environment variables of the run.
    pub env: Map<Seq<char>, Seq<char>>,
    /// The name of the working directory, if it has one.
    pub workspace: Option<Seq<char>>,
    /// The time of day.
    pub now: TimeOfDay,
}

/// The word for the kind of node a run was started on.
pub open spec fn target_type(scope: ExecutionScope) -> Seq<char> {
    match scope {
        ExecutionScope::Command => "command"@,
        ExecutionScope::Pipeline => "pipeline"@,
        ExecutionScope::Job => "job"@,
        _ => "other"@,
    }
}

/// The environment of the run: the variable `LOOM_ENV`, else the variable
/// `ENVIRONMENT`, else `development`.
pub open spec fn environment_name(env: Map<Seq<char>, Seq<char>>) -> Seq<char> {
    if env.contains_key("LOOM_ENV"@) {
        env["LOOM_ENV"@]
    } else if env.contains_key("ENVIRONMENT"@) {
        env["ENVIRONMENT"@]
    } else {
        "development"@
    }
}

/// The name of the workspace, or `unknown`.
pub open spec fn workspace_name(workspace: Option<Seq<char>>) -> Seq<char> {
    match workspace {
        Some(name) => name,
        None => "unknown"@,
    }
}

/// Whether `now` lies in the window; an end that cannot be read as a time of
/// day counts as the end of the day, a start as its beginning.
pub open spec fn in_window(now: TimeOfDay, start: Option<TimeOfDay>, end: Option<TimeOfDay>) -> bool {
    let first = match start {
        Some(t) => t,
        None => day_start(),
    };
    let last = match end {
        Some(t) => t,
        None => day_end(),
    };
    first.not_after(now) && now.not_after(last)
}

/// Whether a condition holds.
pub open spec fn condition_holds(condition: ConditionView, around: Surroundings) -> bool {
    match condition {
        ConditionView::TargetType(types) => types.contains(target_type(around.scope)),
        ConditionView::Environment(names) => names.contains(environment_name(around.env)),
        ConditionView::CommandPattern => false,
        ConditionView::Workspace(names) => names.contains(workspace_name(around.workspace)),
        ConditionView::TimeWindow { start, end } => in_window(
            around.now,
            clock_time_of(start),
            clock_time_of(end),
        ),
        ConditionView::Custom(_) => true,
    }
}

/// Whether the first `n` conditions hold.
pub open spec fn conditions_hold(conditions: Seq<ConditionView>, n: nat, around: Surroundings) -> bool
    decreases n,
{
    if n == 0 || n > conditions.len() {
        true
    } else {
        conditions_hold(conditions, (n - 1) as nat, around) && condition_holds(
            conditions[n - 1],
            around,
        )
    }
}

/// Whether an interceptor with this configuration takes part: it is enabled
/// and all its conditions hold.
pub open spec fn activates(config: ConfigView, around: Surroundings) -> bool {
    config.enabled && conditions_hold(config.conditions, config.conditions.len(), around)
}

/// What the run looks like at time `now` in a working directory called
/// `workspace`.
pub open spec fn surroundings_of(
    context: &ExecutionContext,
    workspace: Option<Seq<char>>,
    now: TimeOfDay,
) -> Surroundings {
    Surroundings { scope: context.scope, env: text_map(context.env_vars), workspace, now }
}

/// Whether `names` holds `name`.
pub fn holds_name(names: &Vec<String>, name: &str) -> (r: bool)
    ensures
        r == texts(names@).contains(name@),
{
    let mut i: usize = 0;
    while i < names.len()
        invariant
            i <= names.len(),
            forall|j: int| 0 <= j < i ==> texts(names@)[j] != name@,
        decreases names.len() - i,
    {
        if text_eq(names[i].as_str(), name) {
            assert(texts(names@)[i as int] == name@);
            return true;
        }
        i += 1;
    }
    false
}

/// The time of day and the name of the working directory against which the
/// conditions of one run are judged: taken once, so that every condition of
/// the run sees the same.
pub struct Moment {
    pub now: TimeOfDay,
    pub workspace: Option<String>,
}

impl Moment {
    /// Reads the clock and takes the name of the working directory of
    /// `context`. A run without a working directory has no workspace; of the
    /// name of a working directory and of the time nothing is known
    /// beforehand.
    pub fn observe(context: &ExecutionContext) -> (r: Moment)
        ensures
            context.working_dir is None ==> r.workspace is None,
    {
        let workspace = match &context.working_dir {
            Some(path) => directory_name(path.as_str()),
            None => None,
        };
        Moment { now: local_time_of_day(), workspace }
    }
}

/// Whether `condition` holds for the run at the given moment.
pub fn evaluate_condition_at(
    condition: &ActivationCondition,
    context: &ExecutionContext,
    moment: &Moment,
) -> (r: bool)
    ensures
        r == condition_holds(
            condition@,
            surroundings_of(context, optional_text(moment.workspace), moment.now),
        ),
{
    match condition {
        ActivationCondition::TargetType(types) => {
            let word = match context.scope {
                ExecutionScope::Command => "command",
                ExecutionScope::Pipeline => "pipeline",
                ExecutionScope::Job => "job",
                _ => "other",
            };
            holds_name(types, word)
        },
        ActivationCondition::Environment(names) => {
            match context.env_vars.get("LOOM_ENV") {
                Some(name) => holds_name(names, name.as_str()),
                None => match context.env_vars.get("ENVIRONMENT") {
                    Some(name) => holds_name(names, name.as_str()),
                    None => holds_name(names, "development"),
                },
            }
        },
        ActivationCondition::CommandPattern(_) => false,
        ActivationCondition::Workspace(names) => {
            match &moment.workspace {
                Some(name) => holds_name(names, name.as_str()),
                None => holds_name(names, "unknown"),
            }
        },
        ActivationCondition::TimeWindow { start, end } => {
            let first = match parse_clock_time(start.as_str()) {
                Some(t) => t,
                None => TimeOfDay { seconds: 0, nanos: 0 },
            };
            let last = match parse_clock_time(end.as_str()) {
                Some(t) => t,
                None => TimeOfDay { seconds: 86399, nanos: 0 },
            };
            first.is_not_after(moment.now) && moment.now.is_not_after(last)
        },
        ActivationCondition::Custom(_) => true,
    }
}

/// Whether `condition` holds for the run now: the clock and the name of the
/// working directory are read once, then the condition is judged as by
/// [`evaluate_condition_at`]. For a condition that reads neither, the result
/// is fixed by the condition and the run; a run without a working directory
/// has no workspace, so that only a time window then depends on the moment.
pub fn evaluate_condition(condition: &ActivationCondition, context: &ExecutionContext) -> (r: bool)
    ensures
        exists|workspace: Option<Seq<char>>, now: TimeOfDay|
            r == #[trigger] condition_holds(condition@, surroundings_of(context, workspace, now)),
        context.working_dir is None ==> exists|now: TimeOfDay|
            r == #[trigger] condition_holds(condition@, surroundings_of(context, None, now)),
        !(condition@ is TimeWindow) && !(condition@ is Workspace) ==> r == condition_holds(
            condition@,
            surroundings_of(context, None, day_start()),
        ),
        !(condition@ is TimeWindow) && context.working_dir is None ==> r == condition_holds(
            condition@,
            surroundings_of(context, None, day_start()),
        ),
{
    let moment = Moment::observe(context);
    let r = evaluate_condition_at(condition, context, &moment);
    assert(r == condition_holds(
        condition@,
        surroundings_of(context, optional_text(moment.workspace), moment.now),
    ));
    r
}

/// Whether an interceptor with this configuration takes part in the run at
/// the given moment.
pub fn should_activate_at(
    config: &GlobalInterceptorConfig,
    context: &ExecutionContext,
    moment: &Moment,
) -> (r: bool)
    ensures
        r == activates(
            config@,
            surroundings_of(context, optional_text(moment.workspace), moment.now),
        ),
{
    if !config.enabled {
        return false;
    }
    let ghost around = surroundings_of(context, optional_text(moment.workspace), moment.now);
    let mut i: usize = 0;
    while i < config.conditions.len()
        invariant
            i <= config.conditions.len(),
            around == surroundings_of(context, optional_text(moment.workspace), moment.now),
            conditions_hold(views(config.conditions@), i as nat, around),
        decreases config.conditions.len() - i,
    {
        if !evaluate_condition_at(&config.conditions[i], context, moment) {
            proof {
                conditions_fail(views(config.conditions@), (i + 1) as nat, config.conditions@.len(), around);
            }
            return false;
        }
        i += 1;
    }
    true
}

/// Once a condition among the first `k` fails, no longer prefix holds.
pub proof fn conditions_fail(conditions: Seq<ConditionView>, k: nat, n: nat, around: Surroundings)
    requires
        k <= n <= conditions.len(),
        !conditions_hold(conditions, k, around),
    ensures
        !conditions_hold(conditions, n, around),
    decreases n,
{
    if k < n {
        conditions_fail(conditions, k, (n - 1) as nat, around);
    }
}

/// Whether none of the conditions reads the clock or the name of the
/// working directory.
pub open spec fn moment_free(conditions: Seq<ConditionView>) -> bool {
    forall|i: int|
        0 <= i < conditions.len() ==> !((#[trigger] conditions[i]) is TimeWindow) && !(conditions[i] is Workspace)
}

/// Conditions that read neither the clock nor the name of the working
/// directory hold, or fail, whatever the moment.
pub proof fn moment_free_conditions_hold_alike(
    conditions: Seq<ConditionView>,
    n: nat,
    a: Surroundings,
    b: Surroundings,
)
    requires
        n <= conditions.len(),
        moment_free(conditions),
        a.scope == b.scope,
        a.env == b.env,
    ensures
        conditions_hold(conditions, n, a) == conditions_hold(conditions, n, b),
    decreases n,
{
    if n > 0 {
        moment_free_conditions_hold_alike(conditions, (n - 1) as nat, a, b);
        assert(!(conditions[n - 1] is TimeWindow) && !(conditions[n - 1] is Workspace));
    }
}

/// Whether an interceptor with this configuration takes part in the run
/// now: the clock and the name of the working directory are read once, then
/// the configuration is judged as by [`should_activate_at`]. A run without a
/// working directory has no workspace; a configuration none of whose
/// conditions reads the clock or the working directory is judged alike at
/// every moment.
pub fn should_activate(config: &GlobalInterceptorConfig, context: &ExecutionContext) -> (r: bool)
    ensures
        !config.enabled ==> !r,
        exists|workspace: Option<Seq<char>>, now: TimeOfDay|
            r == #[trigger] activates(config@, surroundings_of(context, workspace, now)),
        context.working_dir is None ==> exists|now: TimeOfDay|
            r == #[trigger] activates(config@, surroundings_of(context, None, now)),
        moment_free(config@.conditions) ==> r == activates(
            config@,
            surroundings_of(context, None, day_start()),
        ),
{
    let moment = Moment::observe(context);
    let r = should_activate_at(config, context, &moment);
    let ghost around = surroundings_of(context, optional_text(moment.workspace), moment.now);
    assert(r == activates(config@, around));
    proof {
        if moment_free(config@.conditions) {
            moment_free_conditions_hold_alike(
                config@.conditions,
                config@.conditions.len(),
                around,
                surroundings_of(context, None, day_start()),
            );
        }
    }
    r
}

/// What the library reads of a global interceptor when it is registered.
/// Intercepting itself is up to the application.
pub trait GlobalInterceptor {
    fn name(&self) -> String;

    fn description(&self) -> String;

    fn default_config(&self) -> GlobalInterceptorConfig;

    /// Whether the interceptor hands control on to the rest of the chain.
    fn need_chain(&self) -> bool;

    /// What the interceptor is for: general use, unless it says otherwise.
    fn category(&self) -> (r: GlobalInterceptorCategory)
        default_ensures
            r == GlobalInterceptorCategory::General,
    {
        GlobalInterceptorCategory::General
    }
}

} // verus!

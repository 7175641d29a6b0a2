//! Running a chain, one step at a time.
//!
//! The interceptors of the application and the processes of commands run
//! outside the library. A [`ChainRun`] decides what happens next: the caller
//! hands it what has happened as a [`RunEvent`] and carries out the
//! [`RunAction`] that it answers with, until the action is `Done`.

use vstd::prelude::*;
use vstd::string::*;
use crate::ast::{ExprView, Expression};
use crate::binding::{bound_variables, variable_views};
use crate::context::LoomContext;
use crate::error::{ErrorView, InterceptorErrorView, LoomError};
use crate::evaluation::{eval, scope_of, value_text, EvalScope, Outcome, DEFERRED_LIMIT};
use crate::floats::FloatArithmetic;
use crate::interceptor::context::ExecutionContext;
use crate::interceptor::executor::{Executor, ExecutorView};
use crate::interceptor::global::config::{ConfigView, GlobalInterceptorConfig};
use crate::interceptor::result::{
    dry_run_view, finished_view, not_started_view, ExecutionResult, ResultView,
};
use crate::interceptor::{chain_view, clone_chain, ActiveInterceptor, InterceptorView};
use crate::text::texts;
use crate::types::{LoomValue, ValueView};
use crate::views::views;

verus! {

/// A chain or a sequence that is being run.
#[derive(Debug)]
pub enum Frame {
    /// A chain. The element at `index` is running; those before it wait for
    /// what they handed control on to. `linked` says whether the running
    /// element can hand control on.
    Chain { chain: Vec<ActiveInterceptor>, index: usize, linked: bool },
    /// The children of a sequential executor. The child at `index` is
    /// running; `last` is the result of the child before it.
    Sequential { children: Vec<ActiveInterceptor>, index: usize, last: Option<ExecutionResult> },
}

/// A frame as the contracts see it.
pub enum FrameView {
    Chain { chain: Seq<InterceptorView>, index: nat, linked: bool },
    Sequential { children: Seq<InterceptorView>, index: nat, last: Option<ResultView> },
}

/// The view of an optional result.
pub open spec fn optional_result(r: Option<ExecutionResult>) -> Option<ResultView> {
    match r {
        Some(x) => Some(x@),
        None => None,
    }
}

/// The view of the outcome of an execution.
pub open spec fn outcome_view(r: Result<ExecutionResult, LoomError>) -> Result<ResultView, ErrorView> {
    match r {
        Ok(x) => Ok(x@),
        Err(e) => Err(e@),
    }
}

impl View for Frame {
    type V = FrameView;

    open spec fn view(&self) -> FrameView {
        match self {
            Frame::Chain { chain, index, linked } => FrameView::Chain {
                chain: chain_view(chain@),
                index: *index as nat,
                linked: *linked,
            },
            Frame::Sequential { children, index, last } => FrameView::Sequential {
                children: chain_view(children@),
                index: *index as nat,
                last: optional_result(*last),
            },
        }
    }
}

/// What a run is about to do, or waits for.
#[derive(Debug)]
pub enum Phase {
    /// The innermost frame has just been opened.
    Entering,
    /// The current element of the innermost frame is about to run.
    Activating,
    /// The current element of the innermost frame has ended with this.
    Completing(Result<ExecutionResult, LoomError>),
    /// An interceptor of the application is running.
    AwaitingInterceptor,
    /// A command is running.
    AwaitingCommand { command: String },
    /// The run is over.
    Finished,
}

/// A phase as the contracts see it.
pub enum PhaseView {
    Entering,
    Activating,
    Completing(Result<ResultView, ErrorView>),
    AwaitingInterceptor,
    AwaitingCommand { command: Seq<char> },
    Finished,
}

impl View for Phase {
    type V = PhaseView;

    open spec fn view(&self) -> PhaseView {
        match self {
            Phase::Entering => PhaseView::Entering,
            Phase::Activating => PhaseView::Activating,
            Phase::Completing(r) => PhaseView::Completing(outcome_view(*r)),
            Phase::AwaitingInterceptor => PhaseView::AwaitingInterceptor,
            Phase::AwaitingCommand { command } => PhaseView::AwaitingCommand { command: command@ },
            Phase::Finished => PhaseView::Finished,
        }
    }
}

/// What has happened outside the library.
#[derive(Debug)]
pub enum RunEvent {
    /// Nothing: the run was told to continue.
    Proceed,
    /// The interceptor that was invoked or resumed last has returned.
    Returned(Result<ExecutionResult, LoomError>),
    /// The interceptor that was invoked last hands control on.
    NextCalled,
    /// The command has run.
    CommandFinished { exit_code: Option<i32>, stdout: String },
    /// The command could not be started.
    CommandNotStarted { error: String },
}

/// An event as the contracts see it.
pub enum EventView {
    Proceed,
    Returned(Result<ResultView, ErrorView>),
    NextCalled,
    CommandFinished { exit_code: Option<i32>, stdout: Seq<char> },
    CommandNotStarted { error: Seq<char> },
}

impl View for RunEvent {
    type V = EventView;

    open spec fn view(&self) -> EventView {
        match self {
            RunEvent::Proceed => EventView::Proceed,
            RunEvent::Returned(r) => EventView::Returned(outcome_view(*r)),
            RunEvent::NextCalled => EventView::NextCalled,
            RunEvent::CommandFinished { exit_code, stdout } => EventView::CommandFinished {
                exit_code: *exit_code,
                stdout: stdout@,
            },
            RunEvent::CommandNotStarted { error } => EventView::CommandNotStarted { error: error@ },
        }
    }
}

/// Whether an interceptor of the application is global or stands behind a directive.
#[derive(Debug, Clone, Copy, PartialEq, Eq, Structural)]
pub enum InterceptorCategory {
    Global,
    Directive,
}

/// What the caller is to do next.
#[derive(Debug)]
pub enum RunAction {
    /// Hand in `Proceed`.
    Continue,
    /// Run the interceptor of the given category and name. `hands_on` says
    /// whether the rest of the chain stands behind what it hands control on
    /// to. Hand in `NextCalled` when it hands control on, `Returned` when it
    /// returns.
    /// For a global interceptor `config` is the configuration that it runs
    /// under; a directive interceptor has none.
    Invoke {
        category: InterceptorCategory,
        name: String,
        config: Option<GlobalInterceptorConfig>,
        hands_on: bool,
    },
    /// Give this to the interceptor that handed control on, as the outcome
    /// of what it handed control on to. Hand in `Returned` when it returns.
    Resume(Result<ExecutionResult, LoomError>),
    /// Run the command in the working directory and the environment of the
    /// run. Hand in `CommandFinished` or `CommandNotStarted`.
    RunCommand { command: String },
    /// The run is over, with this outcome.
    Done(Result<ExecutionResult, LoomError>),
}

/// An action as the contracts see it.
pub enum ActionView {
    Continue,
    Invoke {
        category: InterceptorCategory,
        name: Seq<char>,
        config: Option<ConfigView>,
        hands_on: bool,
    },
    Resume(Result<ResultView, ErrorView>),
    RunCommand { command: Seq<char> },
    Done(Result<ResultView, ErrorView>),
}

impl View for RunAction {
    type V = ActionView;

    open spec fn view(&self) -> ActionView {
        match self {
            RunAction::Continue => ActionView::Continue,
            RunAction::Invoke { category, name, config, hands_on } => ActionView::Invoke {
                category: *category,
                name: name@,
                config: match config {
                    Some(c) => Some(c@),
                    None => None,
                },
                hands_on: *hands_on,
            },
            RunAction::Resume(r) => ActionView::Resume(outcome_view(*r)),
            RunAction::RunCommand { command } => ActionView::RunCommand { command: command@ },
            RunAction::Done(r) => ActionView::Done(outcome_view(*r)),
        }
    }
}

/// A run as the contracts see it.
pub struct RunView {
    /// The frames, the innermost last.
    pub frames: Seq<FrameView>,
    pub phase: PhaseView,
    /// What expressions are evaluated against.
    pub scope: EvalScope,
    /// The result that a child of a sequence finds of the child before it.
    pub previous: Option<ResultView>,
    pub dry_run: bool,
}

/// The error of a chain that is empty.
pub open spec fn nothing_executed() -> ErrorView {
    ErrorView::plain("No interceptor executed"@)
}

/// The error of a sequence without children.
pub open spec fn empty_sequence() -> ErrorView {
    ErrorView::plain("The result of a SequentialExecutor should not be None"@)
}

/// The error of a sequence with a child that is no executor.
pub open spec fn not_an_executor() -> ErrorView {
    ErrorView::plain("SequentialExecutor should contain only executor Interceptor"@)
}

/// The error given to an interceptor that hands control on though nothing
/// stands behind it.
pub open spec fn nothing_behind() -> ErrorView {
    ErrorView::plain("You are trying to call an empty interceptor chain"@)
}

/// The error given to the last interceptor of a chain when it hands control on.
pub open spec fn end_of_chain() -> ErrorView {
    ErrorView::plain("End of interceptor chain reached"@)
}

/// The error of an event that the run does not wait for.
pub open spec fn unexpected_event() -> ErrorView {
    ErrorView::interceptor(
        InterceptorErrorView::ChainExecution { message: "Unexpected event for the state of the run"@ },
    )
}

/// The error of a definition executor whose definition is not there.
pub open spec fn definition_gone(name: Seq<char>) -> ErrorView {
    ErrorView::interceptor(
        InterceptorErrorView::DefinitionResolution { name, message: "Definition not found"@ },
    )
}

/// The outcome with `name` put on the stack of an interceptor error; any
/// other outcome unchanged.
pub open spec fn with_name(r: Result<ResultView, ErrorView>, name: Seq<char>) -> Result<
    ResultView,
    ErrorView,
> {
    match r {
        Err(ErrorView::InterceptorError { error, interceptor_stack }) => Err(
            ErrorView::InterceptorError { error, interceptor_stack: interceptor_stack.push(name) },
        ),
        _ => r,
    }
}

/// The text of a command: the texts of the values of the first `n` parts,
/// one after another.
pub open spec fn command_text(parts: Seq<ExprView>, n: nat, s: EvalScope, fuel: nat) -> Outcome<
    Seq<char>,
>
    decreases n,
{
    if n == 0 || n > parts.len() {
        Outcome::Value(Seq::empty())
    } else {
        match command_text(parts, (n - 1) as nat, s, fuel) {
            Outcome::Value(before) => match eval(parts[n - 1], s, None, fuel) {
                Outcome::Value(v) => match value_text(v, s, fuel) {
                    Outcome::Value(t) => Outcome::Value(before + t),
                    Outcome::Failure(x) => Outcome::Failure(x),
                    Outcome::Rounded => Outcome::Rounded,
                },
                Outcome::Failure(x) => Outcome::Failure(x),
                Outcome::Rounded => Outcome::Rounded,
            },
            Outcome::Failure(x) => Outcome::Failure(x),
            Outcome::Rounded => Outcome::Rounded,
        }
    }
}

/// Once the first `k` parts do not all have a text, no longer prefix does.
pub proof fn command_text_stops(parts: Seq<ExprView>, k: nat, n: nat, s: EvalScope, fuel: nat)
    requires
        k <= n <= parts.len(),
        !(command_text(parts, k, s, fuel) is Value),
    ensures
        command_text(parts, n, s, fuel) == command_text(parts, k, s, fuel),
    decreases n,
{
    if k < n {
        command_text_stops(parts, k, (n - 1) as nat, s, fuel);
    }
}

/// The variables with the first `n` bound ones written into them, in order.
pub open spec fn with_bound(
    variables: Map<Seq<char>, ValueView>,
    bound: Seq<(Seq<char>, ValueView)>,
    n: nat,
) -> Map<Seq<char>, ValueView>
    decreases n,
{
    if n == 0 || n > bound.len() {
        variables
    } else {
        with_bound(variables, bound, (n - 1) as nat).insert(bound[n - 1].0, bound[n - 1].1)
    }
}

/// The run with other frames and another phase.
pub open spec fn moved(run: RunView, frames: Seq<FrameView>, phase: PhaseView) -> RunView {
    RunView { frames, phase, scope: run.scope, previous: run.previous, dry_run: run.dry_run }
}

/// The run broken off because of an event that it did not wait for.
pub open spec fn broken_off(run: RunView) -> (RunView, ActionView) {
    (moved(run, Seq::empty(), PhaseView::Finished), ActionView::Done(Err(unexpected_event())))
}

/// The run with the innermost frame closed and its outcome to be delivered.
pub open spec fn closed(run: RunView, outcome: Result<ResultView, ErrorView>) -> (RunView, ActionView) {
    (moved(run, run.frames.drop_last(), PhaseView::Completing(outcome)), ActionView::Continue)
}

/// What entering the innermost frame leads to: an empty chain and an empty
/// sequence end in an error at once; else the first element is up, and in a
/// chain it can hand control on exactly if it says that it needs the chain.
pub open spec fn enter(run: RunView) -> (RunView, ActionView) {
    if run.frames.len() == 0 {
        broken_off(run)
    } else {
        match run.frames.last() {
            FrameView::Chain { chain, .. } => if chain.len() == 0 {
                closed(run, Err(nothing_executed()))
            } else {
                (
                    moved(
                        run,
                        run.frames.drop_last().push(
                            FrameView::Chain { chain, index: 0, linked: chain[0].need_chain() },
                        ),
                        PhaseView::Activating,
                    ),
                    ActionView::Continue,
                )
            },
            FrameView::Sequential { children, .. } => if children.len() == 0 {
                closed(run, Err(empty_sequence()))
            } else {
                (
                    moved(
                        run,
                        run.frames.drop_last().push(
                            FrameView::Sequential { children, index: 0, last: None },
                        ),
                        PhaseView::Activating,
                    ),
                    ActionView::Continue,
                )
            },
        }
    }
}

/// The element that is up in a frame, if its index lies within it.
pub open spec fn current(frame: FrameView) -> Option<InterceptorView> {
    match frame {
        FrameView::Chain { chain, index, .. } => if index < chain.len() {
            Some(chain[index as int])
        } else {
            None
        },
        FrameView::Sequential { children, index, .. } => if index < children.len() {
            Some(children[index as int])
        } else {
            None
        },
    }
}

/// Whether the element that is up in a frame can hand control on.
pub open spec fn hands_on(frame: FrameView) -> bool {
    match frame {
        FrameView::Chain { linked, .. } => linked,
        FrameView::Sequential { .. } => false,
    }
}

/// What the text of a command leads to: in a dry run the command is
/// reported and not run; else the caller is asked to run it; where the text
/// cannot be had, the element fails.
pub open spec fn command_step(run: RunView, text: Outcome<Seq<char>>) -> Option<
    (RunView, ActionView),
> {
    match text {
        Outcome::Value(command) => if run.dry_run {
            Some(
                (
                    moved(run, run.frames, PhaseView::Completing(Ok(dry_run_view(command)))),
                    ActionView::Continue,
                ),
            )
        } else {
            Some(
                (
                    moved(run, run.frames, PhaseView::AwaitingCommand { command }),
                    ActionView::RunCommand { command },
                ),
            )
        },
        Outcome::Failure(e) => Some(
            (moved(run, run.frames, PhaseView::Completing(Err(e))), ActionView::Continue),
        ),
        Outcome::Rounded => None,
    }
}

/// What binding the arguments of a definition leads to: the variables are
/// bound and the parts of the definition are entered, to be run one after
/// another as a sequence; where an argument cannot be bound, the element
/// fails.
pub open spec fn definition_step(
    run: RunView,
    chain: Seq<InterceptorView>,
    bound: Outcome<Seq<(Seq<char>, ValueView)>>,
) -> Option<(RunView, ActionView)> {
    match bound {
        Outcome::Value(bound) => Some(
            (
                RunView {
                    frames: run.frames.push(
                        FrameView::Sequential { children: chain, index: 0, last: None },
                    ),
                    phase: PhaseView::Entering,
                    scope: EvalScope {
                        variables: with_bound(run.scope.variables, bound, bound.len()),
                        env: run.scope.env,
                        enums: run.scope.enums,
                    },
                    previous: run.previous,
                    dry_run: run.dry_run,
                },
                ActionView::Continue,
            ),
        ),
        Outcome::Failure(e) => Some(
            (moved(run, run.frames, PhaseView::Completing(Err(e))), ActionView::Continue),
        ),
        Outcome::Rounded => None,
    }
}

/// What running an executor leads to. Where a text or a bound value depends
/// on floating-point rounding, [`rounded_step`] says what is left to hold.
pub open spec fn run_executor(run: RunView, executor: ExecutorView, registry: &LoomContext) -> Option<
    (RunView, ActionView),
> {
    match executor {
        ExecutorView::Command { parts } => command_step(
            run,
            command_text(parts, parts.len(), run.scope, DEFERRED_LIMIT as nat),
        ),
        ExecutorView::SequenceChain { chain } => Some(
            (
                moved(
                    run,
                    run.frames.push(FrameView::Chain { chain, index: 0, linked: false }),
                    PhaseView::Entering,
                ),
                ActionView::Continue,
            ),
        ),
        ExecutorView::Sequential { children, .. } => Some(
            (
                moved(
                    run,
                    run.frames.push(FrameView::Sequential { children, index: 0, last: None }),
                    PhaseView::Entering,
                ),
                ActionView::Continue,
            ),
        ),
        ExecutorView::Definition { definition, chain, args } => match registry.definition_named(
            definition,
        ) {
            None => Some(
                (
                    moved(run, run.frames, PhaseView::Completing(Err(definition_gone(definition)))),
                    ActionView::Continue,
                ),
            ),
            Some(found) => definition_step(
                run,
                chain,
                bound_variables(
                    found@.signature,
                    args,
                    args.len(),
                    run.scope,
                    DEFERRED_LIMIT as nat,
                ),
            ),
        },
    }
}

/// The text of a command that came out, or the error.
pub open spec fn text_said(text: Result<String, LoomError>) -> Outcome<Seq<char>> {
    match text {
        Ok(t) => Outcome::Value(t@),
        Err(e) => Outcome::Failure(e@),
    }
}

/// The variables that came out of binding the arguments, or the error.
pub open spec fn bound_said(bound: Result<Vec<(String, LoomValue)>, LoomError>) -> Outcome<
    Seq<(Seq<char>, ValueView)>,
> {
    match bound {
        Ok(variables) => Outcome::Value(variable_views(variables@)),
        Err(e) => Outcome::Failure(e@),
    }
}

/// What holds of a step on an executor whose text or bound values depend on
/// floating-point rounding: the step is the one that some text of the
/// command, or some outcome of binding the arguments, leads to.
pub open spec fn rounded_step(run: RunView, after: RunView, action: ActionView) -> bool {
    run.frames.len() > 0 && match current(run.frames.last()) {
        Some(InterceptorView::Executor(e)) => match e.executor {
            ExecutorView::Command { .. } => exists|text: Outcome<Seq<char>>| #[trigger]
                command_step(run, text) == Some((after, action)),
            ExecutorView::Definition { chain, .. } => exists|
                bound: Outcome<Seq<(Seq<char>, ValueView)>>,
            | #[trigger]
                definition_step(run, chain, bound) == Some((after, action)),
            _ => false,
        },
        _ => false,
    }
}

/// What running the element that is up leads to: an interceptor of the
/// application is invoked; an executor is run. In a sequence only executors run.
pub open spec fn activate(run: RunView, registry: &LoomContext) -> Option<(RunView, ActionView)> {
    if run.frames.len() == 0 || current(run.frames.last()) is None {
        Some(broken_off(run))
    } else {
        let frame = run.frames.last();
        match current(frame)->0 {
            InterceptorView::Executor(e) => run_executor(run, e.executor, registry),
            InterceptorView::Global(g) => if frame is Sequential {
                Some(closed(run, Err(not_an_executor())))
            } else {
                Some(
                    (
                        moved(run, run.frames, PhaseView::AwaitingInterceptor),
                        ActionView::Invoke {
                            category: InterceptorCategory::Global,
                            name: g.name,
                            config: Some(g.config),
                            hands_on: hands_on(frame),
                        },
                    ),
                )
            },
            InterceptorView::Directive(d) => if frame is Sequential {
                Some(closed(run, Err(not_an_executor())))
            } else {
                Some(
                    (
                        moved(run, run.frames, PhaseView::AwaitingInterceptor),
                        ActionView::Invoke {
                            category: InterceptorCategory::Directive,
                            name: d.name,
                            config: None,
                            hands_on: hands_on(frame),
                        },
                    ),
                )
            },
        }
    }
}

/// What the end of the element that is up leads to.
///
/// Without a frame the run is over. In a chain the first element ends the
/// chain with its outcome; any other element gives its outcome to the
/// element before it, which had handed control on. An error of an
/// interceptor gets the name of the element on its stack. In a sequence an
/// error ends the sequence; a result is kept for the next child, which is up
/// then, and the result of the last child is that of the sequence.
pub open spec fn complete(run: RunView, outcome: Result<ResultView, ErrorView>) -> (RunView, ActionView) {
    if run.frames.len() == 0 {
        (moved(run, run.frames, PhaseView::Finished), ActionView::Done(outcome))
    } else if current(run.frames.last()) is None {
        broken_off(run)
    } else {
        match run.frames.last() {
            FrameView::Chain { chain, index, linked } => {
                let named = with_name(outcome, chain[index as int].name());
                if index == 0 {
                    closed(run, named)
                } else {
                    (
                        moved(
                            run,
                            run.frames.drop_last().push(
                                FrameView::Chain { chain, index: (index - 1) as nat, linked: true },
                            ),
                            PhaseView::AwaitingInterceptor,
                        ),
                        ActionView::Resume(named),
                    )
                }
            },
            FrameView::Sequential { children, index, last } => match outcome {
                Err(e) => closed(run, Err(e)),
                Ok(result) => if index + 1 < children.len() {
                    (
                        RunView {
                            frames: run.frames.drop_last().push(
                                FrameView::Sequential {
                                    children,
                                    index: index + 1,
                                    last: Some(result),
                                },
                            ),
                            phase: PhaseView::Activating,
                            scope: run.scope,
                            previous: Some(result),
                            dry_run: run.dry_run,
                        },
                        ActionView::Continue,
                    )
                } else {
                    closed(run, Ok(result))
                },
            },
        }
    }
}

/// What it leads to that the running interceptor hands control on: where
/// nothing stands behind it, or it is the last of its chain, it is given an
/// error; else the next element of the chain is up, and can hand control on
/// in turn.
pub open spec fn hand_on(run: RunView) -> (RunView, ActionView) {
    if run.frames.len() == 0 {
        broken_off(run)
    } else {
        match run.frames.last() {
            FrameView::Chain { chain, index, linked } => if !linked {
                (run, ActionView::Resume(Err(nothing_behind())))
            } else if index + 1 < chain.len() {
                (
                    moved(
                        run,
                        run.frames.drop_last().push(
                            FrameView::Chain { chain, index: index + 1, linked: true },
                        ),
                        PhaseView::Activating,
                    ),
                    ActionView::Continue,
                )
            } else {
                (run, ActionView::Resume(Err(end_of_chain())))
            },
            FrameView::Sequential { .. } => broken_off(run),
        }
    }
}

/// The step that an event leads to: the state after it, and what the caller
/// is to do. An event that the run does not wait for breaks the run off.
/// Where the text of a command or the value of an argument depends on
/// floating-point rounding the step is left open here: see
/// [`rounded_step`].
pub open spec fn transition(run: RunView, event: EventView, registry: &LoomContext) -> Option<
    (RunView, ActionView),
> {
    match (run.phase, event) {
        (PhaseView::Entering, EventView::Proceed) => Some(enter(run)),
        (PhaseView::Activating, EventView::Proceed) => activate(run, registry),
        (PhaseView::Completing(outcome), EventView::Proceed) => Some(complete(run, outcome)),
        (PhaseView::AwaitingInterceptor, EventView::Returned(outcome)) => Some(
            (moved(run, run.frames, PhaseView::Completing(outcome)), ActionView::Continue),
        ),
        (PhaseView::AwaitingInterceptor, EventView::NextCalled) => Some(hand_on(run)),
        (
            PhaseView::AwaitingCommand { command },
            EventView::CommandFinished { exit_code, stdout },
        ) => Some(
            (
                moved(
                    run,
                    run.frames,
                    PhaseView::Completing(Ok(finished_view(command, exit_code, stdout))),
                ),
                ActionView::Continue,
            ),
        ),
        (PhaseView::AwaitingCommand { command }, EventView::CommandNotStarted { error }) => Some(
            (
                moved(run, run.frames, PhaseView::Completing(Ok(not_started_view(command, error)))),
                ActionView::Continue,
            ),
        ),
        _ => Some(broken_off(run)),
    }
}

/// The state after a step, where the step is specified.
pub open spec fn state_after(run: RunView, event: EventView, registry: &LoomContext) -> RunView {
    let (state, action) = transition(run, event, registry)->0;
    state
}

/// What the caller is to do after a step, where the step is specified.
pub open spec fn action_after(run: RunView, event: EventView, registry: &LoomContext) -> ActionView {
    let (state, action) = transition(run, event, registry)->0;
    action
}

/// When the first element of a chain returns, the chain ends with what it
/// returned: no later element of the chain is run. This holds whether or not
/// the element could hand control on.
pub proof fn first_element_ends_chain(
    run: RunView,
    outcome: Result<ResultView, ErrorView>,
    registry: &LoomContext,
)
    requires
        run.phase is AwaitingInterceptor,
        run.frames.len() > 0,
        run.frames.last() is Chain,
        run.frames.last()->Chain_index == 0,
        run.frames.last()->Chain_chain.len() > 0,
    ensures
        ({
            let first = state_after(run, EventView::Returned(outcome), registry);
            let second = state_after(first, EventView::Proceed, registry);
            &&& action_after(run, EventView::Returned(outcome), registry) is Continue
            &&& first.frames == run.frames
            &&& action_after(first, EventView::Proceed, registry) is Continue
            &&& second.frames == run.frames.drop_last()
            &&& second.phase == PhaseView::Completing(
                with_name(outcome, run.frames.last()->Chain_chain[0].name()),
            )
        }),
{
}

/// An element of a chain other than the first runs only because the element
/// before it has handed control on, and could: a step puts a later element
/// of the innermost chain up only on `NextCalled`, in a frame whose running
/// element can hand control on.
pub proof fn later_elements_need_hand_on(run: RunView, event: EventView, registry: &LoomContext)
    requires
        run.frames.len() > 0,
        run.frames.last() is Chain,
        transition(run, event, registry) is Some,
        ({
            let after = state_after(run, event, registry);
            &&& after.frames.len() == run.frames.len()
            &&& after.frames.last() is Chain
            &&& after.frames.last()->Chain_index > run.frames.last()->Chain_index
        }),
    ensures
        event is NextCalled,
        run.phase is AwaitingInterceptor,
        run.frames.last()->Chain_linked,
        state_after(run, event, registry).frames.last()->Chain_index
            == run.frames.last()->Chain_index + 1,
{
    let after = state_after(run, event, registry);
    assert(after.frames.last() == after.frames[after.frames.len() - 1]);
}

/// In a sequence the result of a child is what the next child finds as the
/// previous result: when a child that is not the last ends with a result,
/// the next child is up and the run holds that result as the previous one.
pub proof fn sequence_threads_results(
    run: RunView,
    result: ResultView,
    registry: &LoomContext,
)
    requires
        run.phase == PhaseView::Completing(Ok::<ResultView, ErrorView>(result)),
        run.frames.len() > 0,
        run.frames.last() is Sequential,
        run.frames.last()->Sequential_index + 1 < run.frames.last()->Sequential_children.len(),
    ensures
        ({
            let after = state_after(run, EventView::Proceed, registry);
            &&& action_after(run, EventView::Proceed, registry) is Continue
            &&& after.phase is Activating
            &&& after.previous == Some(result)
            &&& after.frames.len() == run.frames.len()
            &&& after.frames.last() == (FrameView::Sequential {
                children: run.frames.last()->Sequential_children,
                index: run.frames.last()->Sequential_index + 1,
                last: Some(result),
            })
        }),
{
}

/// A run of a chain: the state of the run, the frames that are open, the
/// innermost last, and what the run is about to do or waits for.
#[derive(Debug)]
pub struct ChainRun {
    pub context: ExecutionContext,
    pub frames: Vec<Frame>,
    pub phase: Phase,
}

/// The text of a command.
pub fn command_text_of<F: FloatArithmetic>(
    parts: &Vec<Expression>,
    registry: &LoomContext,
    context: &ExecutionContext,
    floats: &F,
) -> (r: Result<String, LoomError>)
    ensures
        crate::evaluation::text_agrees(
            r,
            command_text(
                views(parts@),
                parts@.len(),
                scope_of(registry, context),
                DEFERRED_LIMIT as nat,
            ),
        ),
{
    let ghost scope = scope_of(registry, context);
    let ghost all = views(parts@);
    let ghost fuel = DEFERRED_LIMIT as nat;
    let mut out = String::new();
    let mut i: usize = 0;
    while i < parts.len()
        invariant
            i <= parts.len(),
            all == views(parts@),
            scope == scope_of(registry, context),
            fuel == DEFERRED_LIMIT as nat,
            match command_text(all, i as nat, scope, fuel) {
                Outcome::Value(t) => out@ == t,
                Outcome::Failure(_) => false,
                Outcome::Rounded => true,
            },
        decreases parts.len() - i,
    {
        assert(all[i as int] == parts@[i as int]@);
        let value = match parts[i].evaluate_within(registry, context, &None, floats, DEFERRED_LIMIT) {
            Ok(v) => v,
            Err(e) => {
                proof {
                    if !(command_text(all, (i + 1) as nat, scope, fuel) is Value) {
                        command_text_stops(all, (i + 1) as nat, all.len(), scope, fuel);
                    }
                }
                return Err(e);
            },
        };
        match value.stringify_within(registry, context, floats, DEFERRED_LIMIT) {
            Ok(t) => {
                out.append(t.as_str());
            },
            Err(e) => {
                proof {
                    if !(command_text(all, (i + 1) as nat, scope, fuel) is Value) {
                        command_text_stops(all, (i + 1) as nat, all.len(), scope, fuel);
                    }
                }
                return Err(e);
            },
        }
        i += 1;
    }
    Ok(out)
}

/// Writes bound variables into the state of a run, in order.
pub fn bind_variables(context: &mut ExecutionContext, bound: Vec<(String, LoomValue)>)
    ensures
        crate::dictionary::view_map(final(context).variables) == with_bound(
            crate::dictionary::view_map(old(context).variables),
            variable_views(bound@),
            bound@.len(),
        ),
        final(context).env_vars == old(context).env_vars,
        final(context).working_dir == old(context).working_dir,
        final(context).dry_run == old(context).dry_run,
        final(context).scope == old(context).scope,
        final(context).parallelization_kind == old(context).parallelization_kind,
        final(context).metadata == old(context).metadata,
        final(context).previous_result == old(context).previous_result,
{
    let ghost start = crate::dictionary::view_map(context.variables);
    let ghost all = variable_views(bound@);
    let mut rest = bound;
    let mut n: usize = 0;
    let total = rest.len();
    while rest.len() > 0
        invariant
            n + rest.len() == total,
            total == all.len(),
            forall|j: int| 0 <= j < rest.len() ==> (rest@[j].0@, rest@[j].1@) == all[n + j],
            crate::dictionary::view_map(context.variables) == with_bound(start, all, n as nat),
            context.env_vars == old(context).env_vars,
            context.working_dir == old(context).working_dir,
            context.dry_run == old(context).dry_run,
            context.scope == old(context).scope,
            context.parallelization_kind == old(context).parallelization_kind,
            context.metadata == old(context).metadata,
            context.previous_result == old(context).previous_result,
        decreases rest.len(),
    {
        let (name, value) = rest.remove(0);
        proof {
            let before = context.variables;
            assert(crate::dictionary::view_map(before).insert(name@, value@) =~= before@.insert(
                name@,
                value,
            ).map_values(|v: LoomValue| v@));
        }
        context.variables.insert(name, value);
        n += 1;
    }
}

fn attach_name(r: Result<ExecutionResult, LoomError>, name: &str) -> (out: Result<
    ExecutionResult,
    LoomError,
>)
    ensures
        outcome_view(out) == with_name(outcome_view(r), name@),
{
    match r {
        Err(LoomError::InterceptorError { error, interceptor_stack }) => {
            let mut stack = interceptor_stack;
            let added = String::from_str(name);
            proof {
                assert(texts(stack@.push(added)) =~= texts(stack@).push(name@));
            }
            stack.push(added);
            Err(LoomError::InterceptorError { error, interceptor_stack: stack })
        },
        other => other,
    }
}

impl ChainRun {
    /// The run as the contracts see it, against a registry.
    pub open spec fn view_in(&self, registry: &LoomContext) -> RunView {
        RunView {
            frames: views(self.frames@),
            phase: self.phase@,
            scope: scope_of(registry, &self.context),
            previous: optional_result(self.context.previous_result),
            dry_run: self.context.dry_run,
        }
    }

    /// A run that is about to enter `chain`.
    pub fn new(context: ExecutionContext, chain: Vec<ActiveInterceptor>) -> (r: Self)
        ensures
            r.context == context,
            r.phase@ is Entering,
            views(r.frames@) == seq![
                FrameView::Chain { chain: chain_view(chain@), index: 0, linked: false },
            ],
            r.frames@.len() == 1,
            r.frames@[0]@ == (FrameView::Chain {
                chain: chain_view(chain@),
                index: 0,
                linked: false,
            }),
    {
        let mut frames: Vec<Frame> = Vec::new();
        frames.push(Frame::Chain { chain, index: 0, linked: false });
        let r = ChainRun { context, frames, phase: Phase::Entering };
        assert(views(r.frames@) =~= seq![
            FrameView::Chain { chain: chain_view(chain@), index: 0, linked: false },
        ]);
        r
    }

    /// Whether the run is over.
    pub fn is_finished(&self) -> (r: bool)
        ensures
            r == (self.phase@ is Finished),
    {
        match &self.phase {
            Phase::Finished => true,
            _ => false,
        }
    }

    fn break_off(self, Ghost(registry): Ghost<&LoomContext>) -> (r: (ChainRun, RunAction))
        ensures
            (r.0.view_in(registry), r.1@) == broken_off(self.view_in(registry)),
            r.0.context == self.context,
    {
        let ChainRun { context, frames, phase } = self;
        let none: Vec<Frame> = Vec::new();
        assert(views(none@) =~= Seq::<FrameView>::empty());
        (
            ChainRun { context, frames: none, phase: Phase::Finished },
            RunAction::Done(
                Err(LoomError::chain_execution("Unexpected event for the state of the run")),
            ),
        )
    }

    fn enter_frame(self, Ghost(registry): Ghost<&LoomContext>) -> (r: (ChainRun, RunAction))
        requires
            self.phase@ is Entering,
        ensures
            (r.0.view_in(registry), r.1@) == enter(self.view_in(registry)),
            r.0.context == self.context,
    {
        if self.frames.len() == 0 {
            return self.break_off(Ghost(registry));
        }
        let ChainRun { context, frames, phase } = self;
        let ghost before = views(frames@);
        let mut frames = frames;
        let top = frames.pop().unwrap();
        assert(views(frames@) =~= before.drop_last());
        assert(top@ == before.last());
        match top {
            Frame::Chain { chain, index, linked } => {
                if chain.len() == 0 {
                    (
                        ChainRun {
                            context,
                            frames,
                            phase: Phase::Completing(
                                Err(LoomError::execution("No interceptor executed")),
                            ),
                        },
                        RunAction::Continue,
                    )
                } else {
                    let linked = chain[0].need_chain();
                    assert(chain_view(chain@)[0] == chain@[0]@);
                    let frame = Frame::Chain { chain, index: 0, linked };
                    proof {
                        crate::views::views_push(frames@, frame);
                    }
                    frames.push(frame);
                    (ChainRun { context, frames, phase: Phase::Activating }, RunAction::Continue)
                }
            },
            Frame::Sequential { children, index, last } => {
                if children.len() == 0 {
                    (
                        ChainRun {
                            context,
                            frames,
                            phase: Phase::Completing(
                                Err(
                                    LoomError::execution(
                                        "The result of a SequentialExecutor should not be None",
                                    ),
                                ),
                            ),
                        },
                        RunAction::Continue,
                    )
                } else {
                    let frame = Frame::Sequential { children, index: 0, last: None };
                    proof {
                        crate::views::views_push(frames@, frame);
                    }
                    frames.push(frame);
                    (ChainRun { context, frames, phase: Phase::Activating }, RunAction::Continue)
                }
            },
        }
    }

    fn run_element<F: FloatArithmetic>(self, registry: &LoomContext, floats: &F) -> (r: (
        ChainRun,
        RunAction,
    ))
        requires
            self.phase@ is Activating,
        ensures
            match activate(self.view_in(registry), registry) {
                Some(expected) => (r.0.view_in(registry), r.1@) == expected,
                None => rounded_step(self.view_in(registry), r.0.view_in(registry), r.1@),
            },
            r.0.context.env_vars == self.context.env_vars,
            r.0.context.working_dir == self.context.working_dir,
            r.0.context.dry_run == self.context.dry_run,
            r.0.context.scope == self.context.scope,
            r.0.context.parallelization_kind == self.context.parallelization_kind,
            r.0.context.metadata == self.context.metadata,
            r.0.context.previous_result == self.context.previous_result,
    {
        if self.frames.len() == 0 {
            return self.break_off(Ghost(registry));
        }
        let ghost before = views(self.frames@);
        let ghost run = self.view_in(registry);
        let top = &self.frames[self.frames.len() - 1];
        assert(top@ == before.last());
        let (element, in_sequence, linked): (&ActiveInterceptor, bool, bool) = match top {
            Frame::Chain { chain, index, linked } => {
                if *index >= chain.len() {
                    return self.break_off(Ghost(registry));
                }
                assert(chain_view(chain@)[*index as int] == chain@[*index as int]@);
                (&chain[*index], false, *linked)
            },
            Frame::Sequential { children, index, last } => {
                if *index >= children.len() {
                    return self.break_off(Ghost(registry));
                }
                assert(chain_view(children@)[*index as int] == children@[*index as int]@);
                (&children[*index], true, false)
            },
        };
        assert(Some(element@) == current(before.last()));
        match element {
            ActiveInterceptor::Global(g) => {
                if in_sequence {
                    self.close(
                        Err(
                            LoomError::execution(
                                "SequentialExecutor should contain only executor Interceptor",
                            ),
                        ),
                        Ghost(registry),
                    )
                } else {
                    let name = g.name.clone();
                    let config = g.config.clone();
                    let ChainRun { context, frames, phase } = self;
                    (
                        ChainRun { context, frames, phase: Phase::AwaitingInterceptor },
                        RunAction::Invoke {
                            category: InterceptorCategory::Global,
                            name,
                            config: Some(config),
                            hands_on: linked,
                        },
                    )
                }
            },
            ActiveInterceptor::Directive(d) => {
                if in_sequence {
                    self.close(
                        Err(
                            LoomError::execution(
                                "SequentialExecutor should contain only executor Interceptor",
                            ),
                        ),
                        Ghost(registry),
                    )
                } else {
                    let name = d.name.clone();
                    let ChainRun { context, frames, phase } = self;
                    (
                        ChainRun { context, frames, phase: Phase::AwaitingInterceptor },
                        RunAction::Invoke {
                            category: InterceptorCategory::Directive,
                            name,
                            config: None,
                            hands_on: linked,
                        },
                    )
                }
            },
            ActiveInterceptor::Executor(e) => {
                assert(element@ == InterceptorView::Executor(e@));
                match &e.interceptor {
                    Executor::Command(command) => {
                        let text = command_text_of(&command.0, registry, &self.context, floats);
                        let ghost said = text_said(text);
                        let dry_run = self.context.dry_run;
                        let ChainRun { context, frames, phase } = self;
                        let after = match text {
                            Err(x) => (
                                ChainRun { context, frames, phase: Phase::Completing(Err(x)) },
                                RunAction::Continue,
                            ),
                            Ok(t) => {
                                if dry_run {
                                    (
                                        ChainRun {
                                            context,
                                            frames,
                                            phase: Phase::Completing(
                                                Ok(ExecutionResult::dry_run(t.as_str())),
                                            ),
                                        },
                                        RunAction::Continue,
                                    )
                                } else {
                                    let command = t.clone();
                                    (
                                        ChainRun {
                                            context,
                                            frames,
                                            phase: Phase::AwaitingCommand { command: t },
                                        },
                                        RunAction::RunCommand { command },
                                    )
                                }
                            },
                        };
                        assert(command_step(run, said) == Some(
                            (after.0.view_in(registry), after.1@),
                        ));
                        after
                    },
                    Executor::SequenceChain(sequence) => {
                        let frame = Frame::Chain {
                            chain: clone_chain(&sequence.0),
                            index: 0,
                            linked: false,
                        };
                        let ChainRun { context, frames, phase } = self;
                        let mut frames = frames;
                        proof {
                            crate::views::views_push(frames@, frame);
                        }
                        frames.push(frame);
                        (ChainRun { context, frames, phase: Phase::Entering }, RunAction::Continue)
                    },
                    Executor::Sequential(sequence) => {
                        let frame = Frame::Sequential {
                            children: clone_chain(&sequence.0),
                            index: 0,
                            last: None,
                        };
                        let ChainRun { context, frames, phase } = self;
                        let mut frames = frames;
                        proof {
                            crate::views::views_push(frames@, frame);
                        }
                        frames.push(frame);
                        (ChainRun { context, frames, phase: Phase::Entering }, RunAction::Continue)
                    },
                    Executor::Definition(definition) => {
                        let found = match registry.find_definition(definition.0.as_str()) {
                            Some(d) => d,
                            None => {
                                let failure = LoomError::definition_resolution(
                                    definition.0.as_str(),
                                    "Definition not found",
                                );
                                let ChainRun { context, frames, phase } = self;
                                return (
                                    ChainRun {
                                        context,
                                        frames,
                                        phase: Phase::Completing(Err(failure)),
                                    },
                                    RunAction::Continue,
                                );
                            },
                        };
                        let bound = found.signature.args_into_variable(
                            registry,
                            &self.context,
                            &definition.2,
                            floats,
                        );
                        let frame = Frame::Sequential {
                            children: clone_chain(&definition.1),
                            index: 0,
                            last: None,
                        };
                        let ghost said = bound_said(bound);
                        let ChainRun { context, frames, phase } = self;
                        let after = match bound {
                            Err(x) => (
                                ChainRun { context, frames, phase: Phase::Completing(Err(x)) },
                                RunAction::Continue,
                            ),
                            Ok(variables) => {
                                let mut context = context;
                                let mut frames = frames;
                                bind_variables(&mut context, variables);
                                proof {
                                    crate::views::views_push(frames@, frame);
                                    assert(scope_of(registry, &context).env == run.scope.env);
                                    assert(scope_of(registry, &context).enums == run.scope.enums);
                                }
                                frames.push(frame);
                                (
                                    ChainRun { context, frames, phase: Phase::Entering },
                                    RunAction::Continue,
                                )
                            },
                        };
                        assert(definition_step(run, chain_view(definition.1@), said) == Some(
                            (after.0.view_in(registry), after.1@),
                        ));
                        after
                    },
                }
            },
        }
    }

    /// Closes the innermost frame with an outcome.
    fn close(self, outcome: Result<ExecutionResult, LoomError>, Ghost(registry): Ghost<&LoomContext>) -> (r:
        (ChainRun, RunAction))
        requires
            self.frames@.len() > 0,
        ensures
            (r.0.view_in(registry), r.1@) == closed(self.view_in(registry), outcome_view(outcome)),
            r.0.context == self.context,
    {
        let ChainRun { context, frames, phase } = self;
        let ghost before = views(frames@);
        let mut frames = frames;
        frames.pop();
        assert(views(frames@) =~= before.drop_last());
        (ChainRun { context, frames, phase: Phase::Completing(outcome) }, RunAction::Continue)
    }

    fn complete_element(
        self,
        outcome: Result<ExecutionResult, LoomError>,
        Ghost(registry): Ghost<&LoomContext>,
    ) -> (r: (ChainRun, RunAction))
        ensures
            (r.0.view_in(registry), r.1@) == complete(
                moved(
                    self.view_in(registry),
                    views(self.frames@),
                    PhaseView::Completing(outcome_view(outcome)),
                ),
                outcome_view(outcome),
            ),
            r.0.context.variables == self.context.variables,
            r.0.context.env_vars == self.context.env_vars,
            r.0.context.working_dir == self.context.working_dir,
            r.0.context.dry_run == self.context.dry_run,
            r.0.context.scope == self.context.scope,
            r.0.context.parallelization_kind == self.context.parallelization_kind,
            r.0.context.metadata == self.context.metadata,
    {
        let ghost run = moved(
            self.view_in(registry),
            views(self.frames@),
            PhaseView::Completing(outcome_view(outcome)),
        );
        let ChainRun { context, frames, phase } = self;
        if frames.len() == 0 {
            return (ChainRun { context, frames, phase: Phase::Finished }, RunAction::Done(outcome));
        }
        let ghost before = views(frames@);
        let mut frames = frames;
        let top = frames.pop().unwrap();
        assert(views(frames@) =~= before.drop_last());
        assert(top@ == before.last());
        match top {
            Frame::Chain { chain, index, linked } => {
                if index >= chain.len() {
                    let none: Vec<Frame> = Vec::new();
                    assert(views(none@) =~= Seq::<FrameView>::empty());
                    return (
                        ChainRun { context, frames: none, phase: Phase::Finished },
                        RunAction::Done(
                            Err(
                                LoomError::chain_execution(
                                    "Unexpected event for the state of the run",
                                ),
                            ),
                        ),
                    );
                }
                assert(chain_view(chain@)[index as int] == chain@[index as int]@);
                let named = attach_name(outcome, chain[index].name());
                if index == 0 {
                    (ChainRun { context, frames, phase: Phase::Completing(named) }, RunAction::Continue)
                } else {
                    let frame = Frame::Chain { chain, index: index - 1, linked: true };
                    proof {
                        crate::views::views_push(frames@, frame);
                    }
                    frames.push(frame);
                    (
                        ChainRun { context, frames, phase: Phase::AwaitingInterceptor },
                        RunAction::Resume(named),
                    )
                }
            },
            Frame::Sequential { children, index, last } => {
                if index >= children.len() {
                    let none: Vec<Frame> = Vec::new();
                    assert(views(none@) =~= Seq::<FrameView>::empty());
                    return (
                        ChainRun { context, frames: none, phase: Phase::Finished },
                        RunAction::Done(
                            Err(
                                LoomError::chain_execution(
                                    "Unexpected event for the state of the run",
                                ),
                            ),
                        ),
                    );
                }
                match outcome {
                    Err(e) => (
                        ChainRun { context, frames, phase: Phase::Completing(Err(e)) },
                        RunAction::Continue,
                    ),
                    Ok(result) => {
                        if index + 1 < children.len() {
                            let kept = result.clone();
                            let frame = Frame::Sequential {
                                children,
                                index: index + 1,
                                last: Some(result),
                            };
                            proof {
                                crate::views::views_push(frames@, frame);
                            }
                            frames.push(frame);
                            let mut context = context;
                            context.previous_result = Some(kept);
                            (
                                ChainRun { context, frames, phase: Phase::Activating },
                                RunAction::Continue,
                            )
                        } else {
                            (
                                ChainRun { context, frames, phase: Phase::Completing(Ok(result)) },
                                RunAction::Continue,
                            )
                        }
                    },
                }
            },
        }
    }

    fn hand_control_on(self, Ghost(registry): Ghost<&LoomContext>) -> (r: (ChainRun, RunAction))
        requires
            self.phase@ is AwaitingInterceptor,
        ensures
            (r.0.view_in(registry), r.1@) == hand_on(self.view_in(registry)),
            r.0.context == self.context,
    {
        if self.frames.len() == 0 {
            return self.break_off(Ghost(registry));
        }
        let ChainRun { context, frames, phase } = self;
        let ghost before = views(frames@);
        let mut frames = frames;
        let top = frames.pop().unwrap();
        assert(views(frames@) =~= before.drop_last());
        assert(top@ == before.last());
        match top {
            Frame::Chain { chain, index, linked } => {
                if !linked {
                    let frame = Frame::Chain { chain, index, linked };
                    proof {
                        crate::views::views_push(frames@, frame);
                        assert(before.drop_last().push(before.last()) =~= before);
                    }
                    frames.push(frame);
                    (
                        ChainRun { context, frames, phase: Phase::AwaitingInterceptor },
                        RunAction::Resume(
                            crate::interceptor::executor::empty_execute_intercept_next(),
                        ),
                    )
                } else if index < chain.len() && index + 1 < chain.len() {
                    let frame = Frame::Chain { chain, index: index + 1, linked: true };
                    proof {
                        crate::views::views_push(frames@, frame);
                    }
                    frames.push(frame);
                    (ChainRun { context, frames, phase: Phase::Activating }, RunAction::Continue)
                } else {
                    let frame = Frame::Chain { chain, index, linked };
                    proof {
                        crate::views::views_push(frames@, frame);
                        assert(before.drop_last().push(before.last()) =~= before);
                    }
                    frames.push(frame);
                    (
                        ChainRun { context, frames, phase: Phase::AwaitingInterceptor },
                        RunAction::Resume(
                            Err(LoomError::execution("End of interceptor chain reached")),
                        ),
                    )
                }
            },
            Frame::Sequential { children, index, last } => {
                let none: Vec<Frame> = Vec::new();
                assert(views(none@) =~= Seq::<FrameView>::empty());
                (
                    ChainRun { context, frames: none, phase: Phase::Finished },
                    RunAction::Done(
                        Err(LoomError::chain_execution("Unexpected event for the state of the run")),
                    ),
                )
            },
        }
    }

    /// Takes one step: hands in what has happened and says what the caller
    /// is to do next. Of the state of the run a step changes only the
    /// variables, when a definition binds its arguments, and the previous
    /// result, when a sequence moves on.
    pub fn step<F: FloatArithmetic>(self, event: RunEvent, registry: &LoomContext, floats: &F) -> (r: (
        ChainRun,
        RunAction,
    ))
        ensures
            match transition(self.view_in(registry), event@, registry) {
                Some(expected) => (r.0.view_in(registry), r.1@) == expected,
                None => rounded_step(self.view_in(registry), r.0.view_in(registry), r.1@),
            },
            r.0.context.env_vars == self.context.env_vars,
            r.0.context.working_dir == self.context.working_dir,
            r.0.context.dry_run == self.context.dry_run,
            r.0.context.scope == self.context.scope,
            r.0.context.parallelization_kind == self.context.parallelization_kind,
            r.0.context.metadata == self.context.metadata,
    {
        let ghost run = self.view_in(registry);
        match (&self.phase, &event) {
            (Phase::Entering, RunEvent::Proceed) => self.enter_frame(Ghost(registry)),
            (Phase::Activating, RunEvent::Proceed) => self.run_element(registry, floats),
            (Phase::Completing(_), RunEvent::Proceed) => {
                let ChainRun { context, frames, phase } = self;
                match phase {
                    Phase::Completing(outcome) => {
                        let waiting = ChainRun { context, frames, phase: Phase::Finished };
                        waiting.complete_element(outcome, Ghost(registry))
                    },
                    _ => (
                        ChainRun { context, frames, phase: Phase::Finished },
                        RunAction::Continue,
                    ),
                }
            },
            (Phase::AwaitingInterceptor, RunEvent::Returned(_)) => {
                let ChainRun { context, frames, phase } = self;
                match event {
                    RunEvent::Returned(outcome) => (
                        ChainRun { context, frames, phase: Phase::Completing(outcome) },
                        RunAction::Continue,
                    ),
                    _ => (ChainRun { context, frames, phase }, RunAction::Continue),
                }
            },
            (Phase::AwaitingInterceptor, RunEvent::NextCalled) => self.hand_control_on(
                Ghost(registry),
            ),
            (Phase::AwaitingCommand { .. }, RunEvent::CommandFinished { .. }) => {
                let ChainRun { context, frames, phase } = self;
                match (phase, event) {
                    (
                        Phase::AwaitingCommand { command },
                        RunEvent::CommandFinished { exit_code, stdout },
                    ) => (
                        ChainRun {
                            context,
                            frames,
                            phase: Phase::Completing(
                                Ok(ExecutionResult::finished(command.as_str(), exit_code, stdout)),
                            ),
                        },
                        RunAction::Continue,
                    ),
                    (phase, _) => (ChainRun { context, frames, phase }, RunAction::Continue),
                }
            },
            (Phase::AwaitingCommand { .. }, RunEvent::CommandNotStarted { .. }) => {
                let ChainRun { context, frames, phase } = self;
                match (phase, event) {
                    (Phase::AwaitingCommand { command }, RunEvent::CommandNotStarted { error }) => (
                        ChainRun {
                            context,
                            frames,
                            phase: Phase::Completing(
                                Ok(ExecutionResult::not_started(command.as_str(), error.as_str())),
                            ),
                        },
                        RunAction::Continue,
                    ),
                    (phase, _) => (ChainRun { context, frames, phase }, RunAction::Continue),
                }
            },
            _ => self.break_off(Ghost(registry)),
        }
    }
}

} // verus!

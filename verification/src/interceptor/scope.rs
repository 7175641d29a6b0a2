//! What an execution node is, structurally, and where directives and hooks
//! apply.

use vstd::prelude::*;
use vstd::string::*;
use crate::ast::{
    clone_directives, clone_expressions, clone_statements, Block, BlockView, Definition,
    DefinitionView, DirectiveCall, DirectiveCallView, ExprView, Expression, Statement,
    StatementView,
};
use crate::context::LoomContext;
use crate::error::{ErrorView, InterceptorErrorView, LoomError};
use crate::interceptor::context::ExecutionContext;
use crate::types::DefinitionKind;
use crate::views::views;

verus! {

/// When a directive takes effect in the life of a run.
#[derive(Debug, Clone, Copy, PartialEq, Eq, Structural)]
pub enum ExecutionKind {
    /// While help is rendered.
    Help,
    /// Before a definition runs.
    ExecuteDefinition,
    /// Before a single job runs.
    ExecuteJob,
    /// Before a shell command runs.
    ExecuteCommand,
    /// While variables and expressions are evaluated.
    ContextEvaluation,
    /// While the source is validated.
    Validation,
}

/// The level at which a directive may be attached.
#[derive(Debug, Clone, Copy, PartialEq, Eq, Structural, Hash)]
pub enum DirectiveScope {
    Definition,
    Statement,
    Stage,
    Global,
    Command,
    Block,
}

/// The coarse kind of the node that a run was started on.
#[derive(Debug, Clone, Copy, PartialEq, Eq, Structural)]
pub enum ExecutionScope {
    Command,
    Block,
    Pipeline,
    Job,
    Stage,
    Schedule,
    Definition,
}

/// Points in the life of a run at which handlers are notified.
#[derive(Debug, Clone, Copy, PartialEq, Eq, Structural, Hash)]
pub enum ExecutionHook {
    PreParse,
    PostParse,
    PreValidation,
    PostValidation,
    PreExecution,
    PostExecution,
    PreCommand,
    PostCommand,
    OnError,
    OnSuccess,
    Cleanup,
}


/// The statements of a block, with its directives and its label.
#[derive(Debug, PartialEq)]
pub struct BlockTarget {
    pub directives: Vec<DirectiveCall>,
    pub commands: Vec<Statement>,
    pub label: Vec<Expression>,
}

/// A block target as the contracts see it.
pub struct BlockTargetView {
    pub directives: Seq<DirectiveCallView>,
    pub commands: Seq<StatementView>,
    pub label: Seq<ExprView>,
}

impl View for BlockTarget {
    type V = BlockTargetView;

    open spec fn view(&self) -> BlockTargetView {
        BlockTargetView {
            directives: views(self.directives@),
            commands: views(self.commands@),
            label: views(self.label@),
        }
    }
}

impl Clone for BlockTarget {
    fn clone(&self) -> (r: Self)
        ensures
            r@ == self@,
    {
        BlockTarget {
            directives: clone_directives(&self.directives),
            commands: clone_statements(&self.commands),
            label: clone_expressions(&self.label),
        }
    }
}

impl Default for BlockTarget {
    fn default() -> (r: Self)
        ensures
            r@ == (BlockTargetView {
                directives: Seq::empty(),
                commands: Seq::empty(),
                label: Seq::empty(),
            }),
    {
        let r = BlockTarget { directives: Vec::new(), commands: Vec::new(), label: Vec::new() };
        assert(views(r.directives@) =~= Seq::<DirectiveCallView>::empty());
        assert(views(r.commands@) =~= Seq::<StatementView>::empty());
        assert(views(r.label@) =~= Seq::<ExprView>::empty());
        r
    }
}

impl BlockTarget {
    pub fn new(directives: Vec<DirectiveCall>, commands: Vec<Statement>, label: Vec<Expression>) -> (r:
        Self)
        ensures
            r.directives == directives,
            r.commands == commands,
            r.label == label,
    {
        BlockTarget { directives, commands, label }
    }

    /// A block without statements, directives or label.
    pub fn empty() -> (r: Self)
        ensures
            r@ == (BlockTargetView {
                directives: Seq::empty(),
                commands: Seq::empty(),
                label: Seq::empty(),
            }),
    {
        BlockTarget::default()
    }

    /// A block of the given statements, without directives or label.
    pub fn with_commands(commands: Vec<Statement>) -> (r: Self)
        ensures
            r@ == (BlockTargetView {
                directives: Seq::empty(),
                commands: views(commands@),
                label: Seq::empty(),
            }),
    {
        let r = BlockTarget { directives: Vec::new(), commands, label: Vec::new() };
        assert(views(r.directives@) =~= Seq::<DirectiveCallView>::empty());
        assert(views(r.label@) =~= Seq::<ExprView>::empty());
        r
    }

    /// The target of a block of the syntax tree.
    pub fn from_block(block: &Block) -> (r: Self)
        ensures
            r@ == block_target(block@),
    {
        BlockTarget {
            directives: clone_directives(&block.directives),
            commands: clone_statements(&block.statements),
            label: clone_expressions(&block.label),
        }
    }
}

/// The target of a block of the syntax tree.
pub open spec fn block_target(block: BlockView) -> BlockTargetView {
    BlockTargetView { directives: block.directives, commands: block.statements, label: block.label }
}

/// The targets of the blocks of a body.
pub open spec fn block_targets(body: Seq<BlockView>) -> Seq<BlockTargetView> {
    Seq::new(body.len(), |i: int| block_target(body[i]))
}

/// The targets of the blocks of a body.
pub fn targets_of(body: &Vec<Block>) -> (r: Vec<BlockTarget>)
    ensures
        views(r@) == block_targets(views(body@)),
{
    let mut out: Vec<BlockTarget> = Vec::new();
    let mut i: usize = 0;
    while i < body.len()
        invariant
            i <= body.len(),
            out.len() == i,
            forall|j: int| 0 <= j < i ==> out@[j]@ == block_target(body@[j]@),
        decreases body.len() - i,
    {
        out.push(BlockTarget::from_block(&body[i]));
        i += 1;
    }
    assert(views(out@) =~= block_targets(views(body@)));
    out
}

/// A job by its name and its blocks.
#[derive(Debug, PartialEq)]
pub struct JobTarget {
    pub name: String,
    pub blocks: Vec<BlockTarget>,
}

impl Default for JobTarget {
    fn default() -> (r: Self)
        ensures
            r.name@ == Seq::<char>::empty(),
            r.blocks@.len() == 0,
    {
        JobTarget { name: String::new(), blocks: Vec::new() }
    }
}

impl JobTarget {
    pub fn new(name: String, blocks: Vec<BlockTarget>) -> (r: Self)
        ensures
            r.name == name,
            r.blocks == blocks,
    {
        JobTarget { name, blocks }
    }

    /// A job without a name and without blocks.
    pub fn empty() -> (r: Self)
        ensures
            r.name@ == Seq::<char>::empty(),
            r.blocks@.len() == 0,
    {
        JobTarget::default()
    }
}

/// What a node of a run is: the structure of a definition, resolved.
#[derive(Debug, PartialEq)]
pub enum ExecutionActivity {
    /// One statement: a command or a call. It has no children.
    Command(Statement),
    Block(BlockTarget),
    Pipeline { name: String, directives: Vec<DirectiveCall>, stages: Vec<BlockTarget> },
    Stage(BlockTarget),
    Job { name: String, directives: Vec<DirectiveCall>, blocks: Vec<BlockTarget> },
    /// A schedule. It has no children.
    Schedule { name: String, directives: Vec<DirectiveCall> },
    Definition { name: String, directives: Vec<DirectiveCall>, blocks: Vec<BlockTarget> },
}

/// An activity as the contracts see it.
pub enum ActivityView {
    Command(StatementView),
    Block(BlockTargetView),
    Pipeline { name: Seq<char>, directives: Seq<DirectiveCallView>, stages: Seq<BlockTargetView> },
    Stage(BlockTargetView),
    Job { name: Seq<char>, directives: Seq<DirectiveCallView>, blocks: Seq<BlockTargetView> },
    Schedule { name: Seq<char>, directives: Seq<DirectiveCallView> },
    Definition { name: Seq<char>, directives: Seq<DirectiveCallView>, blocks: Seq<BlockTargetView> },
}

impl View for ExecutionActivity {
    type V = ActivityView;

    open spec fn view(&self) -> ActivityView {
        match self {
            ExecutionActivity::Command(s) => ActivityView::Command(s@),
            ExecutionActivity::Block(b) => ActivityView::Block(b@),
            ExecutionActivity::Pipeline { name, directives, stages } => ActivityView::Pipeline {
                name: name@,
                directives: views(directives@),
                stages: views(stages@),
            },
            ExecutionActivity::Stage(b) => ActivityView::Stage(b@),
            ExecutionActivity::Job { name, directives, blocks } => ActivityView::Job {
                name: name@,
                directives: views(directives@),
                blocks: views(blocks@),
            },
            ExecutionActivity::Schedule { name, directives } => ActivityView::Schedule {
                name: name@,
                directives: views(directives@),
            },
            ExecutionActivity::Definition { name, directives, blocks } => ActivityView::Definition {
                name: name@,
                directives: views(directives@),
                blocks: views(blocks@),
            },
        }
    }
}

/// The kind of node that a run started on a definition counts as.
pub open spec fn scope_of_kind(kind: DefinitionKind) -> ExecutionScope {
    match kind {
        DefinitionKind::Job => ExecutionScope::Definition,
        DefinitionKind::Recipe => ExecutionScope::Command,
        DefinitionKind::Schedule => ExecutionScope::Block,
        DefinitionKind::Pipeline => ExecutionScope::Pipeline,
    }
}

impl ExecutionScope {
    /// The kind of node that a run started on `definition` counts as.
    pub fn from_definition(definition: &Definition) -> (r: Self)
        ensures
            r == scope_of_kind(definition.kind),
    {
        match definition.kind {
            DefinitionKind::Job => ExecutionScope::Definition,
            DefinitionKind::Recipe => ExecutionScope::Command,
            DefinitionKind::Schedule => ExecutionScope::Block,
            DefinitionKind::Pipeline => ExecutionScope::Pipeline,
        }
    }
}

/// The activity of a definition: a recipe is a definition activity, a job a
/// job, a pipeline a pipeline whose stages are the blocks of its body, a
/// schedule a schedule.
pub open spec fn activity_of(definition: DefinitionView) -> ActivityView {
    match definition.kind {
        DefinitionKind::Recipe => ActivityView::Definition {
            name: definition.signature.name,
            directives: definition.directives,
            blocks: block_targets(definition.body),
        },
        DefinitionKind::Job => ActivityView::Job {
            name: definition.signature.name,
            directives: definition.directives,
            blocks: block_targets(definition.body),
        },
        DefinitionKind::Pipeline => ActivityView::Pipeline {
            name: definition.signature.name,
            directives: definition.directives,
            stages: block_targets(definition.body),
        },
        DefinitionKind::Schedule => ActivityView::Schedule {
            name: definition.signature.name,
            directives: definition.directives,
        },
    }
}

/// One command activity for each statement.
pub open spec fn command_activities(statements: Seq<StatementView>) -> Seq<ActivityView> {
    Seq::new(statements.len(), |i: int| ActivityView::Command(statements[i]))
}

/// One block activity for each block.
pub open spec fn block_activities(blocks: Seq<BlockTargetView>) -> Seq<ActivityView> {
    Seq::new(blocks.len(), |i: int| ActivityView::Block(blocks[i]))
}

/// One stage activity for each stage.
pub open spec fn stage_activities(stages: Seq<BlockTargetView>) -> Seq<ActivityView> {
    Seq::new(stages.len(), |i: int| ActivityView::Stage(stages[i]))
}

/// The error for a statement of a stage that is no call.
pub open spec fn not_a_call() -> ErrorView {
    ErrorView::plain("A stage may only hold calls of jobs"@)
}

/// The error for a call in a stage that names no definition.
pub open spec fn job_not_found(name: Seq<char>) -> ErrorView {
    ErrorView::interceptor(
        InterceptorErrorView::DefinitionResolution { name, message: "Cannot find Job"@ },
    )
}

/// The job that a statement of a stage stands for: the definition that the
/// call names, as a job.
pub open spec fn stage_job(statement: StatementView, registry: &LoomContext) -> Result<
    ActivityView,
    ErrorView,
> {
    match statement {
        StatementView::Call { name, .. } => match registry.definition_named(name) {
            Some(definition) => Ok(
                ActivityView::Job {
                    name,
                    directives: definition@.directives,
                    blocks: block_targets(definition@.body),
                },
            ),
            None => Err(job_not_found(name)),
        },
        StatementView::Command { .. } => Err(not_a_call()),
    }
}

/// The jobs of the first `n` statements of a stage, or the error of the
/// first statement that stands for none.
pub open spec fn stage_jobs(statements: Seq<StatementView>, n: nat, registry: &LoomContext) -> Result<
    Seq<ActivityView>,
    ErrorView,
>
    decreases n,
{
    if n == 0 || n > statements.len() {
        Ok(Seq::empty())
    } else {
        match stage_jobs(statements, (n - 1) as nat, registry) {
            Ok(before) => match stage_job(statements[n - 1], registry) {
                Ok(job) => Ok(before.push(job)),
                Err(e) => Err(e),
            },
            Err(e) => Err(e),
        }
    }
}

/// The children of an activity: none for a command and a schedule, one
/// command for each statement of a block, one job for each call of a stage,
/// one stage for each stage of a pipeline, one block for each block of a job
/// or a definition.
pub open spec fn children_of(activity: ActivityView, registry: &LoomContext) -> Result<
    Seq<ActivityView>,
    ErrorView,
> {
    match activity {
        ActivityView::Command(_) => Ok(Seq::empty()),
        ActivityView::Block(block) => Ok(command_activities(block.commands)),
        ActivityView::Stage(stage) => stage_jobs(stage.commands, stage.commands.len(), registry),
        ActivityView::Pipeline { stages, .. } => Ok(stage_activities(stages)),
        ActivityView::Job { blocks, .. } => Ok(block_activities(blocks)),
        ActivityView::Schedule { .. } => Ok(Seq::empty()),
        ActivityView::Definition { blocks, .. } => Ok(block_activities(blocks)),
    }
}

/// Once a statement among the first `k` stands for no job, the error is settled.
pub proof fn stage_jobs_stops(statements: Seq<StatementView>, k: nat, n: nat, registry: &LoomContext)
    requires
        k <= n <= statements.len(),
        stage_jobs(statements, k, registry) is Err,
    ensures
        stage_jobs(statements, n, registry) == stage_jobs(statements, k, registry),
    decreases n,
{
    if k < n {
        stage_jobs_stops(statements, k, (n - 1) as nat, registry);
    }
}

fn blocks_as_activities(blocks: &Vec<BlockTarget>) -> (r: Vec<ExecutionActivity>)
    ensures
        views(r@) == block_activities(views(blocks@)),
{
    let mut out: Vec<ExecutionActivity> = Vec::new();
    let mut i: usize = 0;
    while i < blocks.len()
        invariant
            i <= blocks.len(),
            out.len() == i,
            forall|j: int| 0 <= j < i ==> out@[j]@ == ActivityView::Block(blocks@[j]@),
        decreases blocks.len() - i,
    {
        out.push(ExecutionActivity::Block(blocks[i].clone()));
        i += 1;
    }
    assert(views(out@) =~= block_activities(views(blocks@)));
    out
}

impl ExecutionActivity {
    /// The activity of a definition.
    pub fn from_definition(definition: &Definition) -> (r: Self)
        ensures
            r@ == activity_of(definition@),
    {
        let name = definition.signature.name.clone();
        let directives = clone_directives(&definition.directives);
        match definition.kind {
            DefinitionKind::Recipe => ExecutionActivity::Definition {
                name,
                directives,
                blocks: targets_of(&definition.body),
            },
            DefinitionKind::Job => ExecutionActivity::Job {
                name,
                directives,
                blocks: targets_of(&definition.body),
            },
            DefinitionKind::Pipeline => ExecutionActivity::Pipeline {
                name,
                directives,
                stages: targets_of(&definition.body),
            },
            DefinitionKind::Schedule => ExecutionActivity::Schedule { name, directives },
        }
    }

    /// The children of the activity. A call in a stage is resolved to its
    /// definition here; a call in a block is resolved only when the chain of
    /// its command is built.
    pub fn build_child(&self, loom_context: &LoomContext, context: &ExecutionContext) -> (r: Result<
        Vec<ExecutionActivity>,
        LoomError,
    >)
        ensures
            match children_of(self@, loom_context) {
                Ok(children) => r is Ok && views(r->Ok_0@) == children,
                Err(e) => r is Err && r->Err_0@ == e,
            },
    {
        match self {
            ExecutionActivity::Command(_) => {
                let out: Vec<ExecutionActivity> = Vec::new();
                assert(views(out@) =~= Seq::<ActivityView>::empty());
                Ok(out)
            },
            ExecutionActivity::Block(block) => {
                let mut out: Vec<ExecutionActivity> = Vec::new();
                let mut i: usize = 0;
                while i < block.commands.len()
                    invariant
                        i <= block.commands.len(),
                        out.len() == i,
                        forall|j: int|
                            0 <= j < i ==> out@[j]@ == ActivityView::Command(block.commands@[j]@),
                    decreases block.commands.len() - i,
                {
                    out.push(ExecutionActivity::Command(block.commands[i].clone()));
                    i += 1;
                }
                assert(views(out@) =~= command_activities(views(block.commands@)));
                Ok(out)
            },
            ExecutionActivity::Stage(stage) => {
                let ghost statements = views(stage.commands@);
                let mut out: Vec<ExecutionActivity> = Vec::new();
                let mut i: usize = 0;
                assert(views(out@) =~= Seq::<ActivityView>::empty());
                while i < stage.commands.len()
                    invariant
                        i <= stage.commands.len(),
                        statements == views(stage.commands@),
                        children_of(self@, loom_context) == stage_jobs(
                            statements,
                            statements.len(),
                            loom_context,
                        ),
                        stage_jobs(statements, i as nat, loom_context) == Ok::<
                            Seq<ActivityView>,
                            ErrorView,
                        >(views(out@)),
                    decreases stage.commands.len() - i,
                {
                    assert(statements[i as int] == stage.commands@[i as int]@);
                    let job = match &stage.commands[i] {
                        Statement::Call { name, .. } => {
                            match loom_context.find_definition(name.as_str()) {
                                Some(definition) => ExecutionActivity::Job {
                                    name: name.clone(),
                                    directives: clone_directives(&definition.directives),
                                    blocks: targets_of(&definition.body),
                                },
                                None => {
                                    proof {
                                        stage_jobs_stops(
                                            statements,
                                            (i + 1) as nat,
                                            statements.len(),
                                            loom_context,
                                        );
                                    }
                                    return Err(
                                        LoomError::definition_resolution(
                                            name.as_str(),
                                            "Cannot find Job",
                                        ),
                                    );
                                },
                            }
                        },
                        Statement::Command { .. } => {
                            proof {
                                stage_jobs_stops(
                                    statements,
                                    (i + 1) as nat,
                                    statements.len(),
                                    loom_context,
                                );
                            }
                            return Err(LoomError::execution("A stage may only hold calls of jobs"));
                        },
                    };
                    proof {
                        crate::views::views_push(out@, job);
                    }
                    out.push(job);
                    i += 1;
                }
                Ok(out)
            },
            ExecutionActivity::Pipeline { stages, .. } => {
                let mut out: Vec<ExecutionActivity> = Vec::new();
                let mut i: usize = 0;
                while i < stages.len()
                    invariant
                        i <= stages.len(),
                        out.len() == i,
                        forall|j: int| 0 <= j < i ==> out@[j]@ == ActivityView::Stage(stages@[j]@),
                    decreases stages.len() - i,
                {
                    out.push(ExecutionActivity::Stage(stages[i].clone()));
                    i += 1;
                }
                assert(views(out@) =~= stage_activities(views(stages@)));
                Ok(out)
            },
            ExecutionActivity::Job { blocks, .. } => Ok(blocks_as_activities(blocks)),
            ExecutionActivity::Schedule { .. } => {
                let out: Vec<ExecutionActivity> = Vec::new();
                assert(views(out@) =~= Seq::<ActivityView>::empty());
                Ok(out)
            },
            ExecutionActivity::Definition { blocks, .. } => Ok(blocks_as_activities(blocks)),
        }
    }

    /// The name of a pipeline, a job, a schedule or a definition.
    pub fn name(&self) -> (r: Option<&str>)
        ensures
            match r {
                Some(n) => match self@ {
                    ActivityView::Pipeline { name, .. } => n@ == name,
                    ActivityView::Job { name, .. } => n@ == name,
                    ActivityView::Schedule { name, .. } => n@ == name,
                    ActivityView::Definition { name, .. } => n@ == name,
                    _ => false,
                },
                None => self@ is Command || self@ is Block || self@ is Stage,
            },
    {
        match self {
            ExecutionActivity::Pipeline { name, .. } => Some(name.as_str()),
            ExecutionActivity::Job { name, .. } => Some(name.as_str()),
            ExecutionActivity::Schedule { name, .. } => Some(name.as_str()),
            ExecutionActivity::Definition { name, .. } => Some(name.as_str()),
            _ => None,
        }
    }

    /// The directives attached to the node; a command has none of its own here.
    pub fn directives(&self) -> (r: Option<&Vec<DirectiveCall>>)
        ensures
            match r {
                Some(d) => match self@ {
                    ActivityView::Pipeline { directives, .. } => views(d@) == directives,
                    ActivityView::Job { directives, .. } => views(d@) == directives,
                    ActivityView::Schedule { directives, .. } => views(d@) == directives,
                    ActivityView::Definition { directives, .. } => views(d@) == directives,
                    ActivityView::Block(b) => views(d@) == b.directives,
                    ActivityView::Stage(b) => views(d@) == b.directives,
                    ActivityView::Command(_) => false,
                },
                None => self@ is Command,
            },
    {
        match self {
            ExecutionActivity::Pipeline { directives, .. } => Some(directives),
            ExecutionActivity::Job { directives, .. } => Some(directives),
            ExecutionActivity::Schedule { directives, .. } => Some(directives),
            ExecutionActivity::Definition { directives, .. } => Some(directives),
            ExecutionActivity::Block(block) => Some(&block.directives),
            ExecutionActivity::Stage(stage) => Some(&stage.directives),
            ExecutionActivity::Command(_) => None,
        }
    }

    /// Whether the node is a single statement.
    pub fn is_terminal(&self) -> (r: bool)
        ensures
            r == (self@ is Command),
    {
        match self {
            ExecutionActivity::Command(_) => true,
            _ => false,
        }
    }

    /// How many children the node has by its structure.
    pub fn children_count(&self) -> (r: usize)
        ensures
            r == match self@ {
                ActivityView::Command(_) => 0,
                ActivityView::Block(b) => b.commands.len(),
                ActivityView::Pipeline { stages, .. } => stages.len(),
                ActivityView::Stage(b) => b.commands.len(),
                ActivityView::Job { blocks, .. } => blocks.len(),
                ActivityView::Schedule { .. } => 0,
                ActivityView::Definition { blocks, .. } => blocks.len(),
            },
    {
        match self {
            ExecutionActivity::Command(_) => 0,
            ExecutionActivity::Block(block) => block.commands.len(),
            ExecutionActivity::Pipeline { stages, .. } => stages.len(),
            ExecutionActivity::Stage(stage) => stage.commands.len(),
            ExecutionActivity::Job { blocks, .. } => blocks.len(),
            ExecutionActivity::Schedule { .. } => 0,
            ExecutionActivity::Definition { blocks, .. } => blocks.len(),
        }
    }
}


impl From<&Definition> for ExecutionScope {
    fn from(value: &Definition) -> (r: Self) {
        ExecutionScope::from_definition(value)
    }
}

impl vstd::std_specs::convert::FromSpecImpl<&Definition> for ExecutionScope {
    open spec fn obeys_from_spec() -> bool {
        true
    }

    open spec fn from_spec(value: &Definition) -> Self {
        scope_of_kind(value.kind)
    }
}

impl From<&Definition> for ExecutionActivity {
    fn from(value: &Definition) -> (r: Self)
        ensures
            r@ == activity_of(value@),
    {
        ExecutionActivity::from_definition(value)
    }
}

impl vstd::std_specs::convert::FromSpecImpl<&Definition> for ExecutionActivity {
    open spec fn obeys_from_spec() -> bool {
        false
    }

    open spec fn from_spec(value: &Definition) -> Self {
        arbitrary()
    }
}

} // verus!

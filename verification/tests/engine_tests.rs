use loom_core::ast::{
    BinaryOperator, Block, Definition, DirectiveCall, Expression, InterpolationPart, Statement,
};
use loom_core::context::{LoomContext, Module};
use loom_core::dictionary::Dictionary;
use loom_core::directives::ParallelDirectiveInterceptor;
use loom_core::error::{InterceptorError, LoomError};
use loom_core::floats::{FloatArithmetic, FloatBits};
use loom_core::interceptor::context::ExecutionContext;
use loom_core::interceptor::engine::InterceptorEngine;
use loom_core::interceptor::executor::{
    ActiveExecutorInterceptor, CommandExecutorInterceptor, Executor, SequenceChainInterceptor,
    SequentialExecutorInterceptor,
};
use loom_core::interceptor::global::config::GlobalInterceptorConfig;
use loom_core::interceptor::global::interceptor::{ActivationCondition, Moment, TimeOfDay};
use loom_core::interceptor::global::ActiveGlobalInterceptor;
use loom_core::interceptor::result::ExecutionResult;
use loom_core::interceptor::run::{ChainRun, Frame, InterceptorCategory, Phase, RunAction, RunEvent};
use loom_core::interceptor::directive::interceptor::DirectiveInterceptor;
use loom_core::interceptor::directive::ActiveDirectiveInterceptor;
use loom_core::interceptor::scope::{BlockTarget, ExecutionActivity, ExecutionScope, JobTarget};
use loom_core::interceptor::ActiveInterceptor;
use loom_core::types::{
    DefinitionKind, LiteralValue, LoomValue, ParameterDefinition, Position, Signature,
};
use loom_core::InputArg;

struct Floats;

impl FloatArithmetic for Floats {
    fn sum(&self, a: FloatBits, b: FloatBits) -> FloatBits {
        FloatBits { bits: (f64::from_bits(a.bits) + f64::from_bits(b.bits)).to_bits() }
    }
    fn difference(&self, a: FloatBits, b: FloatBits) -> FloatBits {
        FloatBits { bits: (f64::from_bits(a.bits) - f64::from_bits(b.bits)).to_bits() }
    }
    fn product(&self, a: FloatBits, b: FloatBits) -> FloatBits {
        FloatBits { bits: (f64::from_bits(a.bits) * f64::from_bits(b.bits)).to_bits() }
    }
    fn quotient(&self, a: FloatBits, b: FloatBits) -> FloatBits {
        FloatBits { bits: (f64::from_bits(a.bits) / f64::from_bits(b.bits)).to_bits() }
    }
    fn from_integer(&self, n: i64) -> FloatBits {
        FloatBits { bits: (n as f64).to_bits() }
    }
    fn render(&self, a: FloatBits) -> String {
        f64::from_bits(a.bits).to_string()
    }
}

fn text(s: &str) -> Expression {
    Expression::Literal(LiteralValue::String(s.to_string()))
}

fn command(s: &str) -> Statement {
    Statement::Command { parts: vec![text(s)], directives: vec![] }
}

fn call_of(name: &str, args: Vec<Expression>) -> Statement {
    Statement::Call { name: name.to_string(), args, directives: vec![] }
}

fn directive_call(name: &str) -> DirectiveCall {
    DirectiveCall { name: name.to_string(), args: vec![], position: Position::new(1, 1) }
}

fn block(statements: Vec<Statement>) -> Block {
    Block::new(statements, vec![], vec![])
}

fn definition(kind: DefinitionKind, name: &str, parameters: Vec<&str>, body: Vec<Block>) -> Definition {
    Definition {
        kind,
        signature: Signature {
            name: name.to_string(),
            parameters: parameters
                .into_iter()
                .map(|p| ParameterDefinition {
                    name: p.to_string(),
                    param_type: None,
                    default_value: None,
                    required: true,
                })
                .collect(),
        },
        body,
        directives: vec![],
        position: Position::new(1, 1),
        module_index: 0,
    }
}

fn registry_of(definitions: Vec<Definition>) -> LoomContext {
    let mut module = Module::new();
    let mut names = vec![];
    for (i, d) in definitions.into_iter().enumerate() {
        names.push((d.signature.name.clone(), i as u128));
        module.definitions.insert(i as u128, d);
    }
    module.variables.insert("region".to_string(), LoomValue::Literal(LiteralValue::String("eu".into())));
    let mut registry = LoomContext::new();
    assert!(registry.add_module(1, module));
    for (name, id) in names {
        assert!(registry.index_definition(&name, 1, id));
    }
    registry
}

fn noon() -> Moment {
    Moment { now: TimeOfDay { seconds: 12 * 3600, nanos: 0 }, workspace: None }
}

fn global_config(priority: i32) -> GlobalInterceptorConfig {
    GlobalInterceptorConfig {
        enabled: true,
        priority,
        conditions: vec![],
        parameters: Dictionary::new(),
        user_overridable: false,
    }
}

fn names_of(chain: &Vec<ActiveInterceptor>) -> Vec<String> {
    chain.iter().map(|i| i.name().to_string()).collect()
}

fn inner_chain(element: &ActiveInterceptor) -> &Vec<ActiveInterceptor> {
    match element {
        ActiveInterceptor::Executor(e) => match &e.interceptor {
            Executor::SequenceChain(s) => &s.0,
            Executor::Sequential(s) => &s.0,
            Executor::Definition(d) => &d.1,
            Executor::Command(_) => panic!("a command has no chain"),
        },
        _ => panic!("not an executor"),
    }
}

fn root_chain(run: &ChainRun) -> &Vec<ActiveInterceptor> {
    match &run.frames[0] {
        Frame::Chain { chain, .. } => chain,
        Frame::Sequential { .. } => panic!("the root is a chain"),
    }
}

fn drive(
    mut run: ChainRun,
    registry: &LoomContext,
    mut outside: impl FnMut(&RunAction, &ChainRun) -> RunEvent,
) -> (Result<ExecutionResult, LoomError>, ChainRun, Vec<String>) {
    let mut trace = vec![];
    let mut event = RunEvent::Proceed;
    for _ in 0..10_000 {
        let (next, action) = run.step(event, registry, &Floats);
        run = next;
        match &action {
            RunAction::Continue => {}
            RunAction::Invoke { category, name, config, hands_on } => {
                assert_eq!(config.is_some(), *category == InterceptorCategory::Global);
                trace.push(format!("invoke {:?} {} {}", category, name, hands_on))
            }
            RunAction::Resume(r) => trace.push(format!("resume {}", r.is_ok())),
            RunAction::RunCommand { command } => trace.push(format!("run {}", command)),
            RunAction::Done(_) => {}
        }
        match action {
            RunAction::Done(outcome) => return (outcome, run, trace),
            RunAction::Continue => event = RunEvent::Proceed,
            other => event = outside(&other, &run),
        }
    }
    panic!("the run does not end");
}

#[test]
fn an_undefined_definition_is_reported_with_the_known_names() {
    let registry = registry_of(vec![
        definition(DefinitionKind::Recipe, "build", vec![], vec![]),
        definition(DefinitionKind::Job, "lint", vec![], vec![]),
    ]);
    let mut engine: InterceptorEngine<ParallelDirectiveInterceptor> = InterceptorEngine::new();
    let context = ExecutionContext::new(ExecutionScope::Command);
    match engine.execute(&registry, "does-not-exist", &vec![], context) {
        Err(LoomError::DefinitionNotFoundError { name, available_definitions, position }) => {
            assert_eq!(name, "does-not-exist");
            assert_eq!(available_definitions, vec!["build", "lint"]);
            assert_eq!(position, Position::default());
        }
        other => panic!("unexpected {:?}", other.map(|_| ())),
    }
    assert_eq!(engine.cache_stats(), Some(0));
}

#[test]
fn the_registry_finds_definitions_by_name() {
    let mut registry = registry_of(vec![definition(DefinitionKind::Recipe, "build", vec![], vec![])]);
    assert_eq!(registry.find_definition("build").unwrap().signature.name, "build");
    assert!(registry.find_definition("nope").is_none());
    assert!(registry.get_variables("build").unwrap().contains_key("region"));
    assert!(registry.get_variables("nope").is_none());
    assert_eq!(registry.known_definitions(), vec!["build"]);
    assert!(!registry.index_definition("build", 1, 0));
    assert!(!registry.index_definition("alias", 1, 99));
    assert!(!registry.index_definition("alias", 2, 0));
    assert!(registry.index_definition("alias", 1, 0));
    assert_eq!(registry.find_definition("alias").unwrap().signature.name, "build");
    assert!(!registry.add_module(1, Module::new()));
    assert!(registry.find_enum("Environment").is_none());
    let calls = definition(
        DefinitionKind::Recipe,
        "calls",
        vec![],
        vec![
            block(vec![call_of("build", vec![]), call_of("nope", vec![]), command("ls")]),
            block(vec![call_of("alias", vec![]), call_of("gone", vec![])]),
        ],
    );
    let mut errors = vec!["earlier".to_string()];
    registry.validate_definition_references(&calls, &mut errors);
    assert_eq!(errors, vec!["earlier", "Undefined reference: nope", "Undefined reference: gone"]);
    assert!(registry.call_function("f", vec![], Position::default()).is_err());
}

#[test]
fn activities_mirror_the_kind_of_their_definition() {
    let body = vec![block(vec![command("a"), command("b")]), block(vec![command("c")])];
    let recipe = definition(DefinitionKind::Recipe, "r", vec![], body.clone());
    let job = definition(DefinitionKind::Job, "j", vec![], body.clone());
    let pipeline = definition(DefinitionKind::Pipeline, "p", vec![], body.clone());
    let schedule = definition(DefinitionKind::Schedule, "s", vec![], body.clone());
    assert!(matches!(ExecutionActivity::from_definition(&recipe), ExecutionActivity::Definition { .. }));
    assert!(matches!(ExecutionActivity::from_definition(&job), ExecutionActivity::Job { .. }));
    assert!(matches!(ExecutionActivity::from_definition(&pipeline), ExecutionActivity::Pipeline { .. }));
    assert!(matches!(ExecutionActivity::from_definition(&schedule), ExecutionActivity::Schedule { .. }));
    assert_eq!(ExecutionScope::from_definition(&recipe), ExecutionScope::Command);
    assert_eq!(ExecutionScope::from_definition(&job), ExecutionScope::Definition);
    assert_eq!(ExecutionScope::from_definition(&pipeline), ExecutionScope::Pipeline);
    assert_eq!(ExecutionScope::from_definition(&schedule), ExecutionScope::Block);
    assert_eq!(ExecutionScope::from(&pipeline), ExecutionScope::Pipeline);
    assert_eq!(ExecutionActivity::from(&job), ExecutionActivity::from_definition(&job));

    let activity = ExecutionActivity::from_definition(&recipe);
    assert_eq!(activity.name(), Some("r"));
    assert_eq!(activity.children_count(), 2);
    assert!(!activity.is_terminal());
    assert!(activity.directives().unwrap().is_empty());
    let terminal = ExecutionActivity::Command(command("x"));
    assert!(terminal.is_terminal());
    assert_eq!(terminal.name(), None);
    assert!(terminal.directives().is_none());
    assert_eq!(terminal.children_count(), 0);
    assert!(BlockTarget::empty().commands.is_empty());
    assert_eq!(BlockTarget::with_commands(vec![command("x")]).commands.len(), 1);
    assert_eq!(BlockTarget::new(vec![], vec![command("x")], vec![]).commands.len(), 1);
    assert_eq!(JobTarget::empty().name, "");
    assert_eq!(JobTarget::new("j".into(), vec![]).name, "j");
}

#[test]
fn children_follow_the_structure() {
    let registry = registry_of(vec![definition(
        DefinitionKind::Job,
        "lint",
        vec![],
        vec![block(vec![command("cargo clippy")])],
    )]);
    let context = ExecutionContext::new(ExecutionScope::Pipeline);
    let children = |a: &ExecutionActivity| a.build_child(&registry, &context);

    assert!(children(&ExecutionActivity::Command(command("x"))).unwrap().is_empty());
    assert!(children(&ExecutionActivity::Schedule { name: "s".into(), directives: vec![] })
        .unwrap()
        .is_empty());

    let block_activity = ExecutionActivity::Block(BlockTarget::with_commands(vec![
        command("a"),
        call_of("lint", vec![]),
    ]));
    let of_block = children(&block_activity).unwrap();
    assert_eq!(of_block.len(), 2);
    assert_eq!(of_block[0], ExecutionActivity::Command(command("a")));
    assert_eq!(of_block[1], ExecutionActivity::Command(call_of("lint", vec![])));

    let stage = ExecutionActivity::Stage(BlockTarget::with_commands(vec![call_of("lint", vec![])]));
    let jobs = children(&stage).unwrap();
    assert_eq!(jobs.len(), 1);
    match &jobs[0] {
        ExecutionActivity::Job { name, blocks, .. } => {
            assert_eq!(name, "lint");
            assert_eq!(blocks.len(), 1);
            assert_eq!(blocks[0].commands, vec![command("cargo clippy")]);
        }
        other => panic!("unexpected {:?}", other),
    }

    let missing = ExecutionActivity::Stage(BlockTarget::with_commands(vec![call_of("nope", vec![])]));
    assert_eq!(
        children(&missing),
        Err(LoomError::definition_resolution("nope", "Cannot find Job"))
    );
    let with_command = ExecutionActivity::Stage(BlockTarget::with_commands(vec![command("ls")]));
    assert_eq!(
        children(&with_command),
        Err(LoomError::execution("A stage may only hold calls of jobs"))
    );

    let pipeline = ExecutionActivity::Pipeline {
        name: "ci".into(),
        directives: vec![],
        stages: vec![BlockTarget::empty(), BlockTarget::empty()],
    };
    let stages = children(&pipeline).unwrap();
    assert_eq!(stages.len(), 2);
    assert!(matches!(stages[0], ExecutionActivity::Stage(_)));
    let job = ExecutionActivity::Job {
        name: "j".into(),
        directives: vec![],
        blocks: vec![BlockTarget::empty()],
    };
    assert!(matches!(children(&job).unwrap()[0], ExecutionActivity::Block(_)));
}

#[test]
fn the_chain_of_a_definition_nests_blocks_and_commands() {
    let registry = registry_of(vec![
        definition(
            DefinitionKind::Recipe,
            "deploy",
            vec!["target"],
            vec![block(vec![command("make"), call_of("notify", vec![text("done")])])],
        ),
        definition(DefinitionKind::Recipe, "notify", vec!["message"], vec![block(vec![command("mail")])]),
    ]);
    let mut engine: InterceptorEngine<ParallelDirectiveInterceptor> = InterceptorEngine::new();
    engine.register_global_entry("audit".to_string(), global_config(9500), true).unwrap();
    engine.register_global_entry("metrics".to_string(), global_config(100), false).unwrap();
    let context = ExecutionContext::new(ExecutionScope::Command);
    let globals = vec![
        ActiveGlobalInterceptor { config: global_config(9500), name: "audit".into(), need_chain: true },
        ActiveGlobalInterceptor { config: global_config(100), name: "metrics".into(), need_chain: false },
    ];
    let target = ExecutionActivity::from_definition(registry.find_definition("deploy").unwrap());
    let args = vec![InputArg::new("target".into(), Some(text("prod")))];
    let chain = engine.build_target_chain(&registry, &context, &target, &globals, Some(&args)).unwrap();
    assert_eq!(names_of(&chain), vec!["audit", "metrics", "definition"]);

    let blocks = inner_chain(&chain[2]);
    assert_eq!(names_of(blocks), vec!["SequenceChainInterceptor"]);
    let block_chain = inner_chain(&blocks[0]);
    assert_eq!(names_of(block_chain), vec!["audit", "metrics", "Block"]);
    let statements = inner_chain(&block_chain[2]);
    assert_eq!(statements.len(), 2);
    assert_eq!(names_of(inner_chain(&statements[0])), vec!["audit", "metrics", "command"]);
    let called = inner_chain(&statements[1]);
    assert_eq!(names_of(called), vec!["audit", "metrics", "definition"]);
    match &called[2] {
        ActiveInterceptor::Executor(e) => match &e.interceptor {
            Executor::Definition(d) => {
                assert_eq!(d.0, "notify");
                assert_eq!(d.2, vec![InputArg::new("message".into(), Some(text("done")))]);
            }
            _ => panic!("not a definition executor"),
        },
        _ => panic!("not an executor"),
    }

    let again = engine.build_target_chain(&registry, &context, &target, &globals, Some(&args)).unwrap();
    assert_eq!(format!("{:?}", chain), format!("{:?}", again));
}

#[test]
fn building_fails_on_unknown_calls_directives_and_too_many_arguments() {
    let registry = registry_of(vec![
        definition(DefinitionKind::Recipe, "a", vec![], vec![block(vec![call_of("nope", vec![])])]),
        definition(
            DefinitionKind::Recipe,
            "b",
            vec![],
            vec![block(vec![call_of("c", vec![text("1"), text("2")])])],
        ),
        definition(DefinitionKind::Recipe, "c", vec!["only"], vec![]),
        definition(DefinitionKind::Recipe, "loop", vec![], vec![block(vec![call_of("loop", vec![])])]),
    ]);
    let engine: InterceptorEngine<ParallelDirectiveInterceptor> = InterceptorEngine::new();
    let context = ExecutionContext::new(ExecutionScope::Command);
    let build = |name: &str| {
        let target = ExecutionActivity::from_definition(registry.find_definition(name).unwrap());
        engine.build_target_chain(&registry, &context, &target, &vec![], None).map(|c| c.len())
    };
    assert_eq!(build("a"), Err(LoomError::definition_resolution("nope", "Cannot resolve the call")));
    assert_eq!(build("b"), Err(LoomError::parameter_mismatch("c", 1, 2)));
    assert_eq!(build("c"), Ok(1));
    assert_eq!(
        build("loop"),
        Err(LoomError::execution("Call depth limit exceeded while building the chain"))
    );

    let with_directive = ExecutionActivity::Command(Statement::Command {
        parts: vec![text("ls")],
        directives: vec![directive_call("parallel")],
    });
    assert_eq!(
        engine.build_target_chain(&registry, &context, &with_directive, &vec![], None).map(|c| c.len()),
        Err(LoomError::execution("Unknown directive: parallel"))
    );
    let mut engine = engine;
    assert!(engine
        .register_directive_entry("odd".into(), 100, true, ParallelDirectiveInterceptor::new())
        .is_err());
    engine.register_directive(ParallelDirectiveInterceptor::new()).unwrap();
    let chain = engine.build_target_chain(&registry, &context, &with_directive, &vec![], None).unwrap();
    assert_eq!(names_of(&chain), vec!["parallel", "command"]);
    let schedule = ExecutionActivity::Schedule { name: "s".into(), directives: vec![] };
    assert!(engine.build_target_chain(&registry, &context, &schedule, &vec![], None).unwrap().is_empty());
    let stage = ExecutionActivity::Stage(BlockTarget::empty());
    let chain = engine.build_target_chain(&registry, &context, &stage, &vec![], None).unwrap();
    assert_eq!(names_of(&chain), vec!["Stage"]);
    let pipeline = ExecutionActivity::Pipeline { name: "p".into(), directives: vec![], stages: vec![] };
    let chain = engine.build_target_chain(&registry, &context, &pipeline, &vec![], None).unwrap();
    assert_eq!(names_of(&chain), vec!["definition"]);
}

#[test]
fn a_pipeline_runs_the_jobs_of_its_stages_in_order() {
    let registry = registry_of(vec![
        definition(DefinitionKind::Job, "lint", vec![], vec![block(vec![command("cargo clippy")])]),
        definition(
            DefinitionKind::Job,
            "test",
            vec![],
            vec![block(vec![command("cargo build"), command("cargo test")])],
        ),
        definition(
            DefinitionKind::Pipeline,
            "ci",
            vec![],
            vec![block(vec![call_of("lint", vec![])]), block(vec![call_of("test", vec![])])],
        ),
    ]);
    let mut engine: InterceptorEngine<ParallelDirectiveInterceptor> = InterceptorEngine::new();
    engine.register_global_entry("audit".to_string(), global_config(9500), true).unwrap();
    let run = engine
        .execute_at(&registry, "ci", &vec![], ExecutionContext::new(ExecutionScope::Job), &noon())
        .unwrap();
    assert_eq!(run.context.scope, ExecutionScope::Pipeline);
    assert_eq!(names_of(root_chain(&run)), vec!["audit", "definition"]);
    let (outcome, run, trace) = drive(run, &registry, |action, _| match action {
        RunAction::Invoke { .. } => RunEvent::NextCalled,
        RunAction::Resume(outcome) => RunEvent::Returned(match outcome {
            Ok(result) => Ok(ExecutionResult {
                output: result.output.clone(),
                exit_code: result.exit_code,
                metadata: Dictionary::new(),
            }),
            Err(_) => Err(LoomError::execution("failed below")),
        }),
        RunAction::RunCommand { command } => {
            RunEvent::CommandFinished { exit_code: Some(0), stdout: format!("ran {}", command) }
        }
        other => panic!("unexpected {:?}", other),
    });
    let commands: Vec<&String> = trace.iter().filter(|line| line.starts_with("run ")).collect();
    assert_eq!(commands, vec!["run cargo clippy", "run cargo build", "run cargo test"]);
    assert_eq!(outcome.unwrap().output, Some("ran cargo test".to_string()));
    assert!(run.is_finished());

    let broken = registry_of(vec![definition(
        DefinitionKind::Pipeline,
        "ci",
        vec![],
        vec![block(vec![call_of("missing", vec![])])],
    )]);
    let mut fresh: InterceptorEngine<ParallelDirectiveInterceptor> = InterceptorEngine::new();
    assert_eq!(
        fresh
            .execute_at(&broken, "ci", &vec![], ExecutionContext::new(ExecutionScope::Job), &noon())
            .err(),
        Some(LoomError::definition_resolution("missing", "Cannot find Job"))
    );
    assert_eq!(fresh.cache_stats(), Some(0));
}

#[test]
fn execute_builds_once_and_keeps_the_chain() {
    let registry = registry_of(vec![definition(
        DefinitionKind::Recipe,
        "build",
        vec![],
        vec![block(vec![command("make")])],
    )]);
    let mut engine: InterceptorEngine<ParallelDirectiveInterceptor> = InterceptorEngine::new();
    engine.register_global_entry("audit".to_string(), global_config(9500), true).unwrap();
    let first = engine
        .execute_at(&registry, "build", &vec![], ExecutionContext::new(ExecutionScope::Job), &noon())
        .unwrap();
    assert_eq!(engine.cache_stats(), Some(1));
    assert_eq!(first.context.scope, ExecutionScope::Command);
    assert!(first.context.variables.contains_key("region"));
    assert!(matches!(first.phase, Phase::Entering));
    let second = engine
        .execute_at(&registry, "build", &vec![], ExecutionContext::new(ExecutionScope::Job), &noon())
        .unwrap();
    assert_eq!(engine.cache_stats(), Some(1));
    assert_eq!(format!("{:?}", root_chain(&first)), format!("{:?}", root_chain(&second)));
    assert_eq!(names_of(root_chain(&first)), vec!["audit", "definition"]);

    assert_eq!(
        engine.list_active_interceptors_at(&ExecutionContext::new(ExecutionScope::Job), &noon()),
        vec![("audit".to_string(), "global".to_string(), 9500)]
    );
    assert_eq!(engine.list_active_interceptors(ExecutionScope::Job, Dictionary::new()).len(), 1);
    assert_eq!(engine.validate_priority_conflicts(), Ok(()));
    engine.clear_cache();
    assert_eq!(engine.cache_stats(), Some(0));
    engine.execute_at(&registry, "build", &vec![], ExecutionContext::new(ExecutionScope::Job), &noon()).unwrap();
    engine.register_global_entry("late".to_string(), global_config(300), false).unwrap();
    assert_eq!(engine.cache_stats(), Some(0));
    assert!(engine.override_global("audit", false).is_err());
    assert!(engine.configure_global("audit", global_config(8000)).is_ok());
}

fn directive_element(name: &str, priority: i32, need_chain: bool) -> ActiveInterceptor {
    ActiveInterceptor::Directive(ActiveDirectiveInterceptor {
        params: Dictionary::new(),
        name: name.to_string(),
        priority,
        need_chain,
    })
}

fn global_element(name: &str, priority: i32, need_chain: bool) -> ActiveInterceptor {
    ActiveInterceptor::Global(ActiveGlobalInterceptor {
        config: global_config(priority),
        name: name.to_string(),
        need_chain,
    })
}

fn command_element(parts: Vec<Expression>) -> ActiveInterceptor {
    ActiveInterceptor::Executor(ActiveExecutorInterceptor::new(Executor::Command(
        CommandExecutorInterceptor(parts),
    )))
}

fn sequence_element(chain: Vec<ActiveInterceptor>) -> ActiveInterceptor {
    ActiveInterceptor::Executor(ActiveExecutorInterceptor::new(Executor::SequenceChain(
        SequenceChainInterceptor(chain),
    )))
}

fn output(text: &str) -> ExecutionResult {
    ExecutionResult { output: Some(text.to_string()), exit_code: Some(0), metadata: Dictionary::new() }
}

#[test]
fn an_interceptor_that_returns_without_handing_on_ends_the_chain() {
    let registry = LoomContext::new();
    let chain = vec![
        directive_element("gate", 7500, false),
        global_element("metrics", 100, true),
        command_element(vec![text("ls")]),
    ];
    let run = ChainRun::new(ExecutionContext::new(ExecutionScope::Command), chain);
    let (outcome, run, trace) =
        drive(run, &registry, |_, _| RunEvent::Returned(Ok(output("stopped here"))));
    assert_eq!(outcome, Ok(output("stopped here")));
    assert_eq!(trace, vec!["invoke Directive gate false"]);
    assert!(run.is_finished());
}

#[test]
fn an_interceptor_without_a_chain_gets_an_error_when_it_hands_on() {
    let registry = LoomContext::new();
    let chain = vec![directive_element("gate", 7500, false), command_element(vec![text("ls")])];
    let run = ChainRun::new(ExecutionContext::new(ExecutionScope::Command), chain);
    let mut asked = false;
    let (outcome, _, trace) = drive(run, &registry, |action, _| match action {
        RunAction::Invoke { .. } if !asked => {
            asked = true;
            RunEvent::NextCalled
        }
        RunAction::Resume(Err(e)) => RunEvent::Returned(Err(e.clone())),
        other => panic!("unexpected {:?}", other),
    });
    assert_eq!(
        outcome,
        Err(LoomError::execution("You are trying to call an empty interceptor chain"))
    );
    assert_eq!(trace, vec!["invoke Directive gate false", "resume false"]);
}

#[test]
fn interceptors_that_hand_on_wrap_the_rest_of_the_chain() {
    let registry = LoomContext::new();
    let chain = vec![
        global_element("audit", 9500, true),
        directive_element("timeout", 7500, true),
        command_element(vec![text("echo "), text("hi")]),
    ];
    let run = ChainRun::new(ExecutionContext::new(ExecutionScope::Command), chain);
    let (outcome, _, trace) = drive(run, &registry, |action, _| match action {
        RunAction::Invoke { .. } => RunEvent::NextCalled,
        RunAction::RunCommand { command } => {
            assert_eq!(command, "echo hi");
            RunEvent::CommandFinished { exit_code: Some(0), stdout: "hi\n".to_string() }
        }
        RunAction::Resume(r) => RunEvent::Returned(r.clone()),
        other => panic!("unexpected {:?}", other),
    });
    let result = outcome.unwrap();
    assert_eq!(result.output, Some("hi\n".to_string()));
    assert_eq!(result.exit_code, Some(0));
    assert_eq!(result.metadata.get("command"), Some(&"echo hi".to_string()));
    assert_eq!(result.metadata.get("exit_code"), Some(&"0".to_string()));
    assert_eq!(
        trace,
        vec![
            "invoke Global audit true",
            "invoke Directive timeout true",
            "run echo hi",
            "resume true",
            "resume true",
        ]
    );
}

#[test]
fn the_last_interceptor_gets_an_error_when_it_hands_on() {
    let registry = LoomContext::new();
    let chain = vec![global_element("audit", 9500, true)];
    let run = ChainRun::new(ExecutionContext::new(ExecutionScope::Command), chain);
    let (outcome, _, _) = drive(run, &registry, |action, _| match action {
        RunAction::Invoke { .. } => RunEvent::NextCalled,
        RunAction::Resume(r) => RunEvent::Returned(r.clone()),
        other => panic!("unexpected {:?}", other),
    });
    assert_eq!(outcome, Err(LoomError::execution("End of interceptor chain reached")));
}

#[test]
fn an_empty_chain_is_an_error() {
    let registry = LoomContext::new();
    let run = ChainRun::new(ExecutionContext::new(ExecutionScope::Command), vec![]);
    let (outcome, _, trace) = drive(run, &registry, |a, _| panic!("unexpected {:?}", a));
    assert_eq!(outcome, Err(LoomError::execution("No interceptor executed")));
    assert!(trace.is_empty());
}

#[test]
fn an_error_carries_the_names_of_the_interceptors_it_passed() {
    let registry = LoomContext::new();
    let chain = vec![
        global_element("audit", 9500, true),
        directive_element("timeout", 7500, true),
        command_element(vec![Expression::Variable("missing".into())]),
    ];
    let run = ChainRun::new(ExecutionContext::new(ExecutionScope::Command), chain);
    let (outcome, _, _) = drive(run, &registry, |action, _| match action {
        RunAction::Invoke { name, .. } if name == "timeout" => {
            RunEvent::Returned(Err(LoomError::directive_interceptor("timeout", "too slow")))
        }
        RunAction::Invoke { .. } => RunEvent::NextCalled,
        RunAction::Resume(r) => RunEvent::Returned(r.clone()),
        other => panic!("unexpected {:?}", other),
    });
    assert_eq!(
        outcome,
        Err(LoomError::InterceptorError {
            error: InterceptorError::Directive { name: "timeout".into(), message: "too slow".into() },
            interceptor_stack: vec!["timeout".to_string(), "audit".to_string()],
        })
    );
}

#[test]
fn a_sequence_runs_its_children_in_order_and_threads_their_results() {
    let registry = LoomContext::new();
    let children = vec![
        sequence_element(vec![command_element(vec![text("one")])]),
        sequence_element(vec![command_element(vec![text("two")])]),
        sequence_element(vec![command_element(vec![text("three")])]),
    ];
    let chain = vec![ActiveInterceptor::Executor(ActiveExecutorInterceptor::new(
        Executor::Sequential(SequentialExecutorInterceptor(children, "Block".into())),
    ))];
    let run = ChainRun::new(ExecutionContext::new(ExecutionScope::Block), chain);
    let mut seen: Vec<(String, Option<String>)> = vec![];
    let (outcome, run, trace) = drive(run, &registry, |action, run| match action {
        RunAction::RunCommand { command } => {
            let previous = run.context.previous_result.as_ref().and_then(|r| r.output.clone());
            seen.push((command.clone(), previous));
            RunEvent::CommandFinished { exit_code: Some(0), stdout: format!("out of {}", command) }
        }
        other => panic!("unexpected {:?}", other),
    });
    assert_eq!(trace, vec!["run one", "run two", "run three"]);
    assert_eq!(
        seen,
        vec![
            ("one".to_string(), None),
            ("two".to_string(), Some("out of one".to_string())),
            ("three".to_string(), Some("out of two".to_string())),
        ]
    );
    assert_eq!(outcome.unwrap().output, Some("out of three".to_string()));
    assert_eq!(run.context.previous_result.unwrap().output, Some("out of two".to_string()));
}

#[test]
fn a_sequence_stops_at_the_first_error_and_takes_executors_only() {
    let registry = LoomContext::new();
    let children = vec![
        sequence_element(vec![command_element(vec![Expression::Variable("missing".into())])]),
        sequence_element(vec![command_element(vec![text("never")])]),
    ];
    let chain = vec![ActiveInterceptor::Executor(ActiveExecutorInterceptor::new(
        Executor::Sequential(SequentialExecutorInterceptor(children, "Block".into())),
    ))];
    let run = ChainRun::new(ExecutionContext::new(ExecutionScope::Block), chain);
    let (outcome, _, trace) = drive(run, &registry, |a, _| panic!("unexpected {:?}", a));
    assert!(matches!(outcome, Err(LoomError::UndefinedError { .. })));
    assert!(trace.is_empty());

    let odd = vec![ActiveInterceptor::Executor(ActiveExecutorInterceptor::new(
        Executor::Sequential(SequentialExecutorInterceptor(
            vec![global_element("audit", 9500, true)],
            "Block".into(),
        )),
    ))];
    let run = ChainRun::new(ExecutionContext::new(ExecutionScope::Block), odd);
    let (outcome, _, _) = drive(run, &registry, |a, _| panic!("unexpected {:?}", a));
    assert_eq!(
        outcome,
        Err(LoomError::execution("SequentialExecutor should contain only executor Interceptor"))
    );

    let none = vec![ActiveInterceptor::Executor(ActiveExecutorInterceptor::new(
        Executor::Sequential(SequentialExecutorInterceptor(vec![], "Block".into())),
    ))];
    let run = ChainRun::new(ExecutionContext::new(ExecutionScope::Block), none);
    let (outcome, _, _) = drive(run, &registry, |a, _| panic!("unexpected {:?}", a));
    assert_eq!(
        outcome,
        Err(LoomError::execution("The result of a SequentialExecutor should not be None"))
    );
}

#[test]
fn a_dry_run_starts_no_command() {
    let registry = LoomContext::new();
    let mut context = ExecutionContext::new(ExecutionScope::Command);
    context.dry_run = true;
    context.variables.insert("n".into(), LoomValue::Literal(LiteralValue::Number(3)));
    let parts = vec![
        text("sleep "),
        Expression::Interpolation {
            parts: vec![InterpolationPart::Expression(Expression::BinaryOp {
                left: Box::new(Expression::Variable("n".into())),
                operator: BinaryOperator::Multiply,
                right: Box::new(Expression::Literal(LiteralValue::Number(2))),
            })],
        },
    ];
    let run = ChainRun::new(context, vec![command_element(parts)]);
    let (outcome, _, trace) = drive(run, &registry, |a, _| panic!("unexpected {:?}", a));
    assert_eq!(
        outcome,
        Ok(ExecutionResult {
            output: Some("DRY RUN: Would execute: sleep 6".to_string()),
            exit_code: Some(0),
            metadata: Dictionary::new(),
        })
    );
    assert!(trace.is_empty());
}

#[test]
fn a_command_that_cannot_be_started_still_gives_a_result() {
    let registry = LoomContext::new();
    let run = ChainRun::new(
        ExecutionContext::new(ExecutionScope::Command),
        vec![command_element(vec![text("nonesuch")])],
    );
    let (outcome, _, _) = drive(run, &registry, |action, _| match action {
        RunAction::RunCommand { .. } => RunEvent::CommandNotStarted { error: "not found".into() },
        other => panic!("unexpected {:?}", other),
    });
    let result = outcome.unwrap();
    assert_eq!(result.output, None);
    assert_eq!(result.exit_code, None);
    assert_eq!(result.metadata.get("system_error"), Some(&"not found".to_string()));
    assert_eq!(result.metadata.get("command"), Some(&"nonesuch".to_string()));
    let silent = ExecutionResult::finished("true", None, String::new());
    assert_eq!(silent.output, None);
    assert_eq!(silent.metadata.len(), 1);
}

#[test]
fn a_definition_binds_its_arguments_before_its_chain_runs() {
    let registry = registry_of(vec![definition(
        DefinitionKind::Recipe,
        "greet",
        vec!["name"],
        vec![block(vec![Statement::Command {
            parts: vec![text("echo "), Expression::Variable("name".into())],
            directives: vec![],
        }])],
    )]);
    let mut engine: InterceptorEngine<ParallelDirectiveInterceptor> = InterceptorEngine::new();
    let args = vec![
        InputArg::new("name".into(), Some(text("world"))),
        InputArg::new("ignored".into(), Some(text("x"))),
    ];
    let mut context = ExecutionContext::new(ExecutionScope::Command);
    context.dry_run = true;
    let run = engine.execute_at(&registry, "greet", &args, context, &noon()).unwrap();
    let (outcome, run, _) = drive(run, &registry, |a, _| panic!("unexpected {:?}", a));
    assert_eq!(outcome.unwrap().output, Some("DRY RUN: Would execute: echo world".to_string()));
    assert_eq!(
        run.context.variables.get("name"),
        Some(&LoomValue::Literal(LiteralValue::String("world".into())))
    );
    assert!(!run.context.variables.contains_key("ignored"));
}

#[test]
fn an_event_that_the_run_does_not_wait_for_breaks_it_off() {
    let registry = LoomContext::new();
    let run = ChainRun::new(
        ExecutionContext::new(ExecutionScope::Command),
        vec![command_element(vec![text("ls")])],
    );
    let (run, action) = run.step(RunEvent::NextCalled, &registry, &Floats);
    assert!(run.is_finished());
    assert!(run.frames.is_empty());
    match action {
        RunAction::Done(Err(e)) => {
            assert_eq!(e, LoomError::chain_execution("Unexpected event for the state of the run"))
        }
        other => panic!("unexpected {:?}", other),
    }
    assert_eq!(InterceptorCategory::Global, InterceptorCategory::Global);
}

#[test]
fn listing_judges_the_conditions_in_the_given_environment() {
    let mut engine: InterceptorEngine<ParallelDirectiveInterceptor> = InterceptorEngine::new();
    let mut guarded = global_config(9100);
    guarded.conditions = vec![ActivationCondition::Environment(vec!["production".to_string()])];
    engine.register_global_entry("guard".to_string(), guarded, false).unwrap();
    engine.register_global_entry("audit".to_string(), global_config(9500), true).unwrap();

    assert_eq!(
        engine.list_active_interceptors(ExecutionScope::Job, Dictionary::new()),
        vec![("audit".to_string(), "global".to_string(), 9500)]
    );
    let mut production = Dictionary::new();
    production.insert("ENVIRONMENT".to_string(), "production".to_string());
    assert_eq!(
        engine.list_active_interceptors(ExecutionScope::Job, production),
        vec![
            ("audit".to_string(), "global".to_string(), 9500),
            ("guard".to_string(), "global".to_string(), 9100),
        ]
    );
}

#[test]
fn a_global_interceptor_is_invoked_with_the_configuration_it_runs_under() {
    let registry = LoomContext::new();
    let mut configured = global_config(9300);
    configured.parameters.insert("level".to_string(), "strict".to_string());
    configured.user_overridable = true;
    let chain = vec![
        ActiveInterceptor::Global(ActiveGlobalInterceptor {
            config: configured,
            name: "audit".to_string(),
            need_chain: true,
        }),
        directive_element("gate", 7500, false),
        command_element(vec![text("ls")]),
    ];
    let run = ChainRun::new(ExecutionContext::new(ExecutionScope::Command), chain);
    let (run, action) = run.step(RunEvent::Proceed, &registry, &Floats);
    assert!(matches!(action, RunAction::Continue));
    let (run, action) = run.step(RunEvent::Proceed, &registry, &Floats);
    match action {
        RunAction::Invoke { category, name, config, hands_on } => {
            assert_eq!(category, InterceptorCategory::Global);
            assert_eq!(name, "audit");
            assert!(hands_on);
            let config = config.expect("a global interceptor has a configuration");
            assert_eq!(config.priority, 9300);
            assert!(config.user_overridable);
            assert_eq!(config.parameters.get("level"), Some(&"strict".to_string()));
        }
        other => panic!("unexpected action {:?}", other),
    }
    let (mut run, mut action) = run.step(RunEvent::NextCalled, &registry, &Floats);
    while matches!(action, RunAction::Continue) {
        (run, action) = run.step(RunEvent::Proceed, &registry, &Floats);
    }
    match action {
        RunAction::Invoke { category, name, config, .. } => {
            assert_eq!(category, InterceptorCategory::Directive);
            assert_eq!(name, "gate");
            assert!(config.is_none());
        }
        other => panic!("unexpected action {:?}", other),
    }
}

#[test]
fn a_second_run_takes_the_chain_of_the_first_whatever_the_moment() {
    let registry = registry_of(vec![definition(
        DefinitionKind::Recipe,
        "build",
        vec![],
        vec![block(vec![command("make")])],
    )]);
    let mut engine: InterceptorEngine<ParallelDirectiveInterceptor> = InterceptorEngine::new();
    let mut timed = global_config(9500);
    timed.conditions =
        vec![ActivationCondition::TimeWindow { start: "09:00".into(), end: "17:00".into() }];
    engine.register_global_entry("office".to_string(), timed, true).unwrap();
    let first = engine
        .execute_at(&registry, "build", &vec![], ExecutionContext::new(ExecutionScope::Job), &noon())
        .unwrap();
    assert_eq!(names_of(root_chain(&first)), vec!["office", "definition"]);
    let midnight = Moment { now: TimeOfDay { seconds: 0, nanos: 0 }, workspace: None };
    let second = engine
        .execute_at(&registry, "build", &vec![], ExecutionContext::new(ExecutionScope::Job), &midnight)
        .unwrap();
    assert_eq!(format!("{:?}", root_chain(&first)), format!("{:?}", root_chain(&second)));
    assert_eq!(engine.cache_stats(), Some(1));

    let before = engine.cache_stats();
    assert!(engine
        .execute_at(&registry, "missing", &vec![], ExecutionContext::new(ExecutionScope::Job), &noon())
        .is_err());
    assert_eq!(engine.cache_stats(), before);
}

#[test]
fn a_command_whose_text_holds_a_float_is_run_with_the_text_as_rendered() {
    let registry = LoomContext::new();
    let parts = vec![
        text("sleep "),
        Expression::BinaryOp {
            left: Box::new(Expression::Literal(LiteralValue::Float(FloatBits {
                bits: 0.5f64.to_bits(),
            }))),
            operator: BinaryOperator::Add,
            right: Box::new(Expression::Literal(LiteralValue::Number(1))),
        },
    ];
    let run = ChainRun::new(
        ExecutionContext::new(ExecutionScope::Command),
        vec![command_element(parts.clone())],
    );
    let (outcome, run, trace) = drive(run, &registry, |_, _| RunEvent::CommandFinished {
        exit_code: Some(0),
        stdout: "done".to_string(),
    });
    assert_eq!(trace, vec!["run sleep 1.5"]);
    assert_eq!(outcome.unwrap().output, Some("done".to_string()));
    assert!(run.is_finished());

    let mut rehearsal = ExecutionContext::new(ExecutionScope::Command);
    rehearsal.dry_run = true;
    let run = ChainRun::new(rehearsal, vec![command_element(parts)]);
    let (outcome, _, trace) = drive(run, &registry, |a, _| panic!("unexpected {:?}", a));
    assert_eq!(outcome.unwrap().output, Some("DRY RUN: Would execute: sleep 1.5".to_string()));
    assert!(trace.is_empty());
}

#[test]
fn running_now_builds_the_chain_that_the_registry_calls_for() {
    let registry = registry_of(vec![definition(
        DefinitionKind::Recipe,
        "build",
        vec![],
        vec![block(vec![command("make")])],
    )]);
    let mut engine: InterceptorEngine<ParallelDirectiveInterceptor> = InterceptorEngine::new();
    let mut guarded = global_config(9100);
    guarded.conditions = vec![ActivationCondition::Environment(vec!["production".to_string()])];
    engine.register_global_entry("guard".to_string(), guarded, false).unwrap();
    engine.register_global_entry("audit".to_string(), global_config(9500), true).unwrap();

    let first = engine
        .execute(&registry, "build", &vec![], ExecutionContext::new(ExecutionScope::Job))
        .unwrap();
    assert_eq!(names_of(root_chain(&first)), vec!["audit", "definition"]);
    assert_eq!(engine.cache_stats(), Some(1));

    engine.clear_cache();
    let mut production = ExecutionContext::new(ExecutionScope::Job);
    production.env_vars.insert("LOOM_ENV".to_string(), "production".to_string());
    let second = engine.execute(&registry, "build", &vec![], production).unwrap();
    assert_eq!(names_of(root_chain(&second)), vec!["audit", "guard", "definition"]);
}

#[test]
fn a_definition_runs_all_its_blocks_one_after_another() {
    let registry = registry_of(vec![definition(
        DefinitionKind::Recipe,
        "release",
        vec![],
        vec![block(vec![command("make")]), block(vec![command("make install")])],
    )]);
    let mut engine: InterceptorEngine<ParallelDirectiveInterceptor> = InterceptorEngine::new();
    let run = engine
        .execute_at(&registry, "release", &vec![], ExecutionContext::new(ExecutionScope::Job), &noon())
        .unwrap();
    let (outcome, run, trace) = drive(run, &registry, |action, _| match action {
        RunAction::RunCommand { command } => {
            RunEvent::CommandFinished { exit_code: Some(0), stdout: format!("ran {}", command) }
        }
        other => panic!("unexpected {:?}", other),
    });
    assert_eq!(trace, vec!["run make", "run make install"]);
    assert_eq!(outcome.unwrap().output, Some("ran make install".to_string()));
    assert!(run.is_finished());
}

#[test]
fn the_user_switches_only_what_is_registered_and_allows_it() {
    let mut engine: InterceptorEngine<ParallelDirectiveInterceptor> = InterceptorEngine::new();
    let mut open = global_config(9100);
    open.user_overridable = true;
    engine.register_global_entry("metrics".to_string(), open, true).unwrap();
    engine.register_global_entry("audit".to_string(), global_config(9500), true).unwrap();

    assert_eq!(
        engine.override_global("nobody", false),
        Err(LoomError::from_message("Global interceptor 'nobody' not found".to_string()))
    );
    assert_eq!(
        engine.override_global("audit", false),
        Err(LoomError::from_message("Global interceptor 'audit' cannot be overridden".to_string()))
    );
    let both = vec![
        ("audit".to_string(), "global".to_string(), 9500),
        ("metrics".to_string(), "global".to_string(), 9100),
    ];
    assert_eq!(engine.list_active_interceptors(ExecutionScope::Job, Dictionary::new()), both);
    assert_eq!(engine.override_global("metrics", false), Ok(()));
    assert_eq!(
        engine.list_active_interceptors(ExecutionScope::Job, Dictionary::new()),
        vec![("audit".to_string(), "global".to_string(), 9500)]
    );
    assert_eq!(engine.override_global("metrics", true), Ok(()));
    assert_eq!(engine.list_active_interceptors(ExecutionScope::Job, Dictionary::new()), both);
}

#[test]
fn a_new_configuration_takes_the_place_of_the_old_one() {
    let mut engine: InterceptorEngine<ParallelDirectiveInterceptor> = InterceptorEngine::new();
    engine.register_global_entry("metrics".to_string(), global_config(100), true).unwrap();
    engine.register_global_entry("audit".to_string(), global_config(9500), true).unwrap();

    assert_eq!(
        engine.configure_global("nobody", global_config(9000)),
        Err(LoomError::from_message("Global interceptor 'nobody' not found".to_string()))
    );
    assert!(engine.configure_global("metrics", global_config(4000)).is_err());
    assert_eq!(
        engine.list_active_interceptors(ExecutionScope::Job, Dictionary::new()),
        vec![
            ("audit".to_string(), "global".to_string(), 9500),
            ("metrics".to_string(), "global".to_string(), 100),
        ]
    );
    assert_eq!(engine.configure_global("metrics", global_config(9800)), Ok(()));
    assert_eq!(
        engine.list_active_interceptors(ExecutionScope::Job, Dictionary::new()),
        vec![
            ("metrics".to_string(), "global".to_string(), 9800),
            ("audit".to_string(), "global".to_string(), 9500),
        ]
    );
    let mut off = global_config(9800);
    off.enabled = false;
    assert_eq!(engine.configure_global("metrics", off), Ok(()));
    assert_eq!(
        engine.list_active_interceptors(ExecutionScope::Job, Dictionary::new()),
        vec![("audit".to_string(), "global".to_string(), 9500)]
    );
}

#[test]
fn a_prepared_run_starts_from_the_state_that_was_given() {
    let registry = registry_of(vec![definition(
        DefinitionKind::Job,
        "lint",
        vec![],
        vec![block(vec![command("cargo clippy")])],
    )]);
    let mut engine: InterceptorEngine<ParallelDirectiveInterceptor> = InterceptorEngine::new();
    let mut given = ExecutionContext::new(ExecutionScope::Command);
    given.env_vars.insert("LOOM_ENV".to_string(), "staging".to_string());
    given.metadata.insert("ticket".to_string(), "42".to_string());
    given.working_dir = Some("/srv/shop".to_string());
    given.dry_run = true;
    given.variables.insert("stale".to_string(), LoomValue::Empty);
    let run = engine.execute_at(&registry, "lint", &vec![], given, &noon()).unwrap();
    assert_eq!(run.context.env_vars.get("LOOM_ENV"), Some(&"staging".to_string()));
    assert_eq!(run.context.metadata.get("ticket"), Some(&"42".to_string()));
    assert_eq!(run.context.working_dir, Some("/srv/shop".to_string()));
    assert!(run.context.dry_run);
    assert_eq!(run.context.scope, ExecutionScope::Definition);
    assert_eq!(
        run.context.variables.get("region"),
        Some(&LoomValue::Literal(LiteralValue::String("eu".into())))
    );
    assert!(!run.context.variables.contains_key("stale"));
}

struct Counting {
    name: &'static str,
    priority: i32,
    reads: bool,
}

impl DirectiveInterceptor for Counting {
    fn directive_name(&self) -> String {
        self.name.to_string()
    }

    fn parse_parameters(
        &self,
        _registry: &LoomContext,
        _context: &ExecutionContext,
        call: &DirectiveCall,
    ) -> Result<Dictionary<LoomValue>, LoomError> {
        if !self.reads {
            return Err(LoomError::directive_interceptor(self.name, "cannot read the arguments"));
        }
        let mut params = Dictionary::new();
        params.insert(
            "arguments".to_string(),
            LoomValue::Literal(LiteralValue::Number(call.args.len() as i64)),
        );
        Ok(params)
    }

    fn priority(&self) -> i32 {
        self.priority
    }

    fn need_chain(&self) -> bool {
        true
    }
}

fn directive_params(chain: &Vec<ActiveInterceptor>, name: &str) -> Vec<Option<LoomValue>> {
    let mut found = vec![];
    for element in chain {
        match element {
            ActiveInterceptor::Directive(d) if d.name == name => {
                found.push(d.params.get("arguments").cloned())
            }
            ActiveInterceptor::Executor(e) if !matches!(e.interceptor, Executor::Command(_)) => {
                found.extend(directive_params(inner_chain(element), name))
            }
            _ => {}
        }
    }
    found
}

#[test]
fn the_chain_holds_what_the_interceptors_read_and_two_builds_end_alike() {
    let registry = LoomContext::new();
    let context = ExecutionContext::new(ExecutionScope::Command);
    let mut engine: InterceptorEngine<Counting> = InterceptorEngine::new();
    engine.register_directive(Counting { name: "retry", priority: 3500, reads: true }).unwrap();
    engine.register_directive(Counting { name: "timeout", priority: 7500, reads: false }).unwrap();

    let retry = DirectiveCall {
        name: "retry".to_string(),
        args: vec![
            loom_core::definition::ArgDefinition::Positional(text("3")),
            loom_core::definition::ArgDefinition::Positional(text("5")),
        ],
        position: Position::new(1, 1),
    };
    let plain = Statement::Command { parts: vec![text("make")], directives: vec![retry.clone()] };
    let guarded = Statement::Command {
        parts: vec![text("make install")],
        directives: vec![retry, directive_call("timeout")],
    };
    let readable = ExecutionActivity::Block(BlockTarget::with_commands(vec![plain.clone()]));
    let unreadable = ExecutionActivity::Block(BlockTarget::with_commands(vec![plain, guarded]));

    let first = engine.build_target_chain(&registry, &context, &readable, &vec![], None).unwrap();
    let second = engine.build_target_chain(&registry, &context, &readable, &vec![], None).unwrap();
    assert_eq!(format!("{:?}", first), format!("{:?}", second));
    assert_eq!(
        directive_params(&first, "retry"),
        vec![Some(LoomValue::Literal(LiteralValue::Number(2)))]
    );

    let failed = LoomError::directive_interceptor("timeout", "cannot read the arguments");
    assert_eq!(
        engine.build_target_chain(&registry, &context, &unreadable, &vec![], None).err(),
        Some(failed.clone())
    );
    assert_eq!(
        engine.build_target_chain(&registry, &context, &unreadable, &vec![], None).err(),
        Some(failed)
    );
}

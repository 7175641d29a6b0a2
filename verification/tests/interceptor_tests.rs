use loom_core::ast::{DirectiveCall, Expression};
use loom_core::context::LoomContext;
use loom_core::dictionary::Dictionary;
use loom_core::directives::ParallelDirectiveInterceptor;
use loom_core::error::LoomError;
use loom_core::interceptor::context::ExecutionContext;
use loom_core::interceptor::directive::interceptor::DirectiveInterceptor;
use loom_core::interceptor::directive::manager::DirectiveInterceptorManager;
use loom_core::interceptor::directive::ActiveDirectiveInterceptor;
use loom_core::interceptor::engine::plug_and_sort_chain;
use loom_core::interceptor::executor::{
    ActiveExecutorInterceptor, CommandExecutorInterceptor, Executor,
};
use loom_core::interceptor::global::config::GlobalInterceptorConfig;
use loom_core::interceptor::global::interceptor::{
    evaluate_condition, evaluate_condition_at, should_activate, should_activate_at,
    ActivationCondition,
    GlobalInterceptor, Moment, TimeOfDay,
};
use loom_core::interceptor::global::manager::GlobalInterceptorManager;
use loom_core::interceptor::global::{ActiveGlobalInterceptor, GlobalInterceptorCategory};
use loom_core::interceptor::priority::{
    is_directive_priority, is_global_priority, sort_by_priority, PriorityRanges,
};
use loom_core::interceptor::scope::ExecutionScope;
use loom_core::interceptor::ActiveInterceptor;
use loom_core::types::{LiteralValue, LoomValue, ParallelizationKind, Position};

fn config(priority: i32) -> GlobalInterceptorConfig {
    GlobalInterceptorConfig {
        enabled: true,
        priority,
        conditions: vec![],
        parameters: Dictionary::new(),
        user_overridable: false,
    }
}

fn noon() -> Moment {
    Moment { now: TimeOfDay { seconds: 12 * 3600, nanos: 0 }, workspace: None }
}

fn global(name: &str, priority: i32) -> ActiveGlobalInterceptor {
    ActiveGlobalInterceptor { config: config(priority), name: name.to_string(), need_chain: true }
}

fn directive(name: &str, priority: i32) -> ActiveDirectiveInterceptor {
    ActiveDirectiveInterceptor {
        params: Dictionary::new(),
        name: name.to_string(),
        priority,
        need_chain: true,
    }
}

fn command_executor() -> ActiveInterceptor {
    ActiveInterceptor::Executor(ActiveExecutorInterceptor::new(Executor::Command(
        CommandExecutorInterceptor(vec![Expression::Literal(LiteralValue::String("ls".into()))]),
    )))
}

struct Scripted {
    name: &'static str,
    priority: i32,
    fails: bool,
}

impl DirectiveInterceptor for Scripted {
    fn directive_name(&self) -> String {
        self.name.to_string()
    }

    fn parse_parameters(
        &self,
        _registry: &LoomContext,
        _context: &ExecutionContext,
        call: &DirectiveCall,
    ) -> Result<Dictionary<LoomValue>, LoomError> {
        if self.fails {
            return Err(LoomError::directive_interceptor(self.name, "cannot read the arguments"));
        }
        let mut params = Dictionary::new();
        params.insert(
            "count".to_string(),
            LoomValue::Literal(LiteralValue::Number(call.args.len() as i64)),
        );
        Ok(params)
    }

    fn priority(&self) -> i32 {
        self.priority
    }

    fn need_chain(&self) -> bool {
        true
    }
}

struct Audit;

impl GlobalInterceptor for Audit {
    fn name(&self) -> String {
        "audit".to_string()
    }

    fn description(&self) -> String {
        "writes an audit trail".to_string()
    }

    fn default_config(&self) -> GlobalInterceptorConfig {
        config(9500)
    }

    fn need_chain(&self) -> bool {
        true
    }

    fn category(&self) -> GlobalInterceptorCategory {
        GlobalInterceptorCategory::Security
    }
}

fn call(name: &str) -> DirectiveCall {
    DirectiveCall { name: name.to_string(), args: vec![], position: Position::new(1, 1) }
}

#[test]
fn bands_are_half_open_and_keep_the_categories_apart() {
    assert_eq!(PriorityRanges::CRITICAL_SYSTEM, 9000..10000);
    assert_eq!(PriorityRanges::MONITORING, 0..500);
    for p in [0, 499, 1000, 2999, 5000, 6999, 8000, 8999, 9000, 9999] {
        assert!(is_global_priority(p), "{}", p);
        assert!(!is_directive_priority(p), "{}", p);
    }
    for p in [500, 999, 3000, 4999, 7000, 7999] {
        assert!(is_directive_priority(p), "{}", p);
        assert!(!is_global_priority(p), "{}", p);
    }
    for p in [-1, 10000, i32::MAX, i32::MIN] {
        assert!(!is_global_priority(p));
        assert!(!is_directive_priority(p));
    }
    for p in -10..10100 {
        assert!(!(is_global_priority(p) && is_directive_priority(p)));
    }
}

#[test]
fn registering_a_global_interceptor_in_a_directive_band_fails() {
    let mut manager = GlobalInterceptorManager::new();
    let r = manager.register_entry("policy".to_string(), config(4000), true);
    match r {
        Err(LoomError::ExecutionError { message, .. }) => {
            assert_eq!(
                message,
                "Global interceptor priority 4000 is not in valid range. Use: CRITICAL_SYSTEM (9000-10000), GLOBAL_HIGH (8000-9000), GLOBAL_NORMAL (5000-7000), GLOBAL_SUPPORT (1000-3000), MONITORING (0-500)"
            );
        }
        other => panic!("unexpected {:?}", other),
    }
    let context = ExecutionContext::new(ExecutionScope::Command);
    assert!(manager.get_active_at(&context, &noon()).is_empty());
    assert!(manager.register_entry("policy".to_string(), config(6000), true).is_ok());
    assert_eq!(manager.get_active_at(&context, &noon()).len(), 1);
}

#[test]
fn registering_a_directive_interceptor_in_a_global_band_fails() {
    let mut manager: DirectiveInterceptorManager<Scripted> = DirectiveInterceptorManager::new();
    let r = manager.register(Scripted { name: "odd", priority: 6000, fails: false });
    match r {
        Err(LoomError::ExecutionError { message, .. }) => {
            assert_eq!(
                message,
                "Directive interceptor priority 6000 is not in valid range. Use: DIRECTIVE_HIGH (7000-8000), DIRECTIVE_NORMAL (3000-5000), DIRECTIVE_SUPPORT (500-1000)"
            );
        }
        other => panic!("unexpected {:?}", other),
    }
    assert!(manager.register(Scripted { name: "fine", priority: 7500, fails: false }).is_ok());
    assert!(manager.register(ScriptedDefault.into_scripted()).is_err());
}

struct ScriptedDefault;

impl ScriptedDefault {
    fn into_scripted(self) -> Scripted {
        Scripted { name: "default", priority: 100, fails: false }
    }
}

#[test]
fn environment_condition_follows_the_environment_of_the_run() {
    let mut manager = GlobalInterceptorManager::new();
    let mut guarded = config(9100);
    guarded.conditions = vec![ActivationCondition::Environment(vec!["production".to_string()])];
    manager.register_entry("guard".to_string(), guarded, false).unwrap();

    let mut context = ExecutionContext::new(ExecutionScope::Command);
    assert!(manager.get_active_at(&context, &noon()).is_empty());
    assert!(manager.get_active(&context).is_empty());

    context.env_vars.insert("ENVIRONMENT".to_string(), "production".to_string());
    let active = manager.get_active_at(&context, &noon());
    assert_eq!(active.len(), 1);
    assert_eq!(active[0].name, "guard");
    assert_eq!(manager.get_active(&context).len(), 1);

    context.env_vars.insert("LOOM_ENV".to_string(), "staging".to_string());
    assert!(manager.get_active_at(&context, &noon()).is_empty());
}

#[test]
fn conditions_are_judged_one_by_one() {
    let mut context = ExecutionContext::new(ExecutionScope::Pipeline);
    let moment = Moment {
        now: TimeOfDay { seconds: 10 * 3600 + 30 * 60, nanos: 5 },
        workspace: Some("shop".to_string()),
    };
    let holds = |c: ActivationCondition, context: &ExecutionContext| {
        evaluate_condition_at(&c, context, &moment)
    };
    assert!(holds(ActivationCondition::TargetType(vec!["pipeline".into()]), &context));
    assert!(!holds(ActivationCondition::TargetType(vec!["command".into()]), &context));
    context.scope = ExecutionScope::Stage;
    assert!(holds(ActivationCondition::TargetType(vec!["other".into()]), &context));
    assert!(holds(ActivationCondition::Environment(vec!["development".into()]), &context));
    assert!(holds(ActivationCondition::Workspace(vec!["shop".into()]), &context));
    assert!(!holds(ActivationCondition::Workspace(vec!["unknown".into()]), &context));
    assert!(holds(ActivationCondition::Custom("anything".into()), &context));
    assert!(!holds(
        ActivationCondition::CommandPattern(regex::Regex::new("^rm").unwrap()),
        &context
    ));
    assert!(holds(
        ActivationCondition::TimeWindow { start: "09:00".into(), end: "17:00".into() },
        &context
    ));
    assert!(!holds(
        ActivationCondition::TimeWindow { start: "11:00".into(), end: "17:00".into() },
        &context
    ));
    assert!(!holds(
        ActivationCondition::TimeWindow { start: "09:00".into(), end: "10:30".into() },
        &context
    ));
    assert!(holds(
        ActivationCondition::TimeWindow { start: "10:30".into(), end: "10:31".into() },
        &context
    ));
    assert!(holds(
        ActivationCondition::TimeWindow { start: "never".into(), end: "no".into() },
        &context
    ));
    assert!(evaluate_condition(&ActivationCondition::Custom("x".into()), &context));
    let no_workspace = Moment { now: moment.now, workspace: None };
    assert!(evaluate_condition_at(
        &ActivationCondition::Workspace(vec!["unknown".into()]),
        &context,
        &no_workspace
    ));
}

#[test]
fn a_disabled_interceptor_takes_no_part_and_all_conditions_must_hold() {
    let context = ExecutionContext::new(ExecutionScope::Job);
    let mut c = config(5000);
    c.enabled = false;
    assert!(!should_activate_at(&c, &context, &noon()));
    c.enabled = true;
    assert!(should_activate_at(&c, &context, &noon()));
    c.conditions = vec![
        ActivationCondition::TargetType(vec!["job".into()]),
        ActivationCondition::Environment(vec!["production".into()]),
    ];
    assert!(!should_activate_at(&c, &context, &noon()));
    c.conditions = vec![
        ActivationCondition::TargetType(vec!["job".into()]),
        ActivationCondition::Environment(vec!["development".into()]),
    ];
    assert!(should_activate_at(&c, &context, &noon()));
    assert!(should_activate(&c, &context));
    c.enabled = false;
    assert!(!should_activate(&c, &context));
}

#[test]
fn active_globals_come_by_falling_priority_and_registration_order() {
    let mut manager = GlobalInterceptorManager::new();
    manager.register_entry("low".to_string(), config(100), true).unwrap();
    manager.register_entry("first".to_string(), config(5000), true).unwrap();
    manager.register_entry("high".to_string(), config(9000), false).unwrap();
    manager.register_entry("second".to_string(), config(5000), true).unwrap();
    manager.register(&Audit).unwrap();
    let context = ExecutionContext::new(ExecutionScope::Command);
    let names: Vec<String> =
        manager.get_active_at(&context, &noon()).into_iter().map(|g| g.name).collect();
    assert_eq!(names, vec!["audit", "high", "first", "second", "low"]);

    manager.register_entry("first".to_string(), config(8500), true).unwrap();
    let names: Vec<String> =
        manager.get_active_at(&context, &noon()).into_iter().map(|g| g.name).collect();
    assert_eq!(names, vec!["audit", "high", "first", "second", "low"]);
}

#[test]
fn configuration_and_overrides() {
    let mut manager = GlobalInterceptorManager::new();
    let mut overridable = config(5000);
    overridable.user_overridable = true;
    manager.register_entry("soft".to_string(), overridable, true).unwrap();
    manager.register_entry("hard".to_string(), config(6000), true).unwrap();
    let context = ExecutionContext::new(ExecutionScope::Command);

    match manager.configure("missing", config(5000)) {
        Err(LoomError::ExecutionError { message, .. }) => {
            assert_eq!(message, "Global interceptor 'missing' not found")
        }
        other => panic!("unexpected {:?}", other),
    }
    assert!(manager.configure("hard", config(4000)).is_err());
    assert!(manager.configure("hard", config(300)).is_ok());
    let names: Vec<String> =
        manager.get_active_at(&context, &noon()).into_iter().map(|g| g.name).collect();
    assert_eq!(names, vec!["soft", "hard"]);

    match manager.set_user_override("hard", false) {
        Err(LoomError::ExecutionError { message, .. }) => {
            assert_eq!(message, "Global interceptor 'hard' cannot be overridden")
        }
        other => panic!("unexpected {:?}", other),
    }
    match manager.set_user_override("missing", false) {
        Err(LoomError::ExecutionError { message, .. }) => {
            assert_eq!(message, "Global interceptor 'missing' not found")
        }
        other => panic!("unexpected {:?}", other),
    }
    manager.set_user_override("soft", false).unwrap();
    let names: Vec<String> =
        manager.get_active_at(&context, &noon()).into_iter().map(|g| g.name).collect();
    assert_eq!(names, vec!["hard"]);
    manager.set_user_override("soft", true).unwrap();
    assert_eq!(manager.get_active_at(&context, &noon()).len(), 2);
}

#[test]
fn sorting_is_stable_and_falling() {
    let items = vec![
        directive("a", 600),
        directive("b", 7000),
        directive("c", 600),
        directive("d", 3000),
        directive("e", 7000),
    ];
    let names: Vec<String> = sort_by_priority(items).into_iter().map(|d| d.name).collect();
    assert_eq!(names, vec!["b", "e", "d", "a", "c"]);
    let none: Vec<ActiveDirectiveInterceptor> = vec![];
    assert!(sort_by_priority(none).is_empty());
}

#[test]
fn a_plugged_chain_is_sorted_and_ends_in_its_executor() {
    let globals = vec![global("security", 9500), global("metrics", 100), global("policy", 5500)];
    let directives = vec![directive("timeout", 7500), directive("parallel", 4000)];
    let chain = plug_and_sort_chain(&globals, &directives, command_executor());
    let names: Vec<&str> = chain.iter().map(|i| i.name()).collect();
    assert_eq!(names, vec!["security", "timeout", "policy", "parallel", "metrics", "command"]);
    let kinds: Vec<&str> = chain.iter().map(|i| i.interceptor_type()).collect();
    assert_eq!(kinds, vec!["global", "directive", "global", "directive", "global", "executor"]);
    for pair in chain[..chain.len() - 1].windows(2) {
        assert!(pair[0].priority() >= pair[1].priority());
    }
    assert_eq!(chain.last().unwrap().priority(), i32::MAX);
    assert!(!chain.last().unwrap().need_chain());
    assert!(ActiveInterceptor::sort(&chain[0], &chain[1]));
    assert!(!ActiveInterceptor::sort(&chain[1], &chain[0]));

    match &chain[5] {
        ActiveInterceptor::Executor(e) => {
            assert_eq!(e.interceptor.description(), "Runs a command");
            assert!(!e.interceptor.need_chain());
            assert_eq!(e.interceptor.name(), "command");
        }
        _ => panic!("the last element is the executor"),
    }
    let alone = plug_and_sort_chain(&vec![], &vec![], command_executor());
    assert_eq!(alone.len(), 1);
    assert_eq!(alone[0].name(), "command");
}

#[test]
fn directive_calls_resolve_to_sorted_interceptors() {
    let mut manager: DirectiveInterceptorManager<Scripted> = DirectiveInterceptorManager::new();
    manager.register(Scripted { name: "log", priority: 600, fails: false }).unwrap();
    manager.register(Scripted { name: "timeout", priority: 7500, fails: false }).unwrap();
    manager.register(Scripted { name: "broken", priority: 3000, fails: true }).unwrap();
    let registry = LoomContext::new();
    let context = ExecutionContext::new(ExecutionScope::Command);

    let active = manager
        .build_active(&registry, &context, &vec![call("log"), call("timeout"), call("log")])
        .unwrap();
    let names: Vec<&str> = active.iter().map(|d| d.name.as_str()).collect();
    assert_eq!(names, vec!["timeout", "log", "log"]);
    assert_eq!(active[0].priority, 7500);
    assert_eq!(
        active[0].params.get("count"),
        Some(&LoomValue::Literal(LiteralValue::Number(0)))
    );

    match manager.build_active(&registry, &context, &vec![call("log"), call("nope"), call("broken")])
    {
        Err(LoomError::ExecutionError { message, .. }) => {
            assert_eq!(message, "Unknown directive: nope")
        }
        other => panic!("unexpected {:?}", other.map(|v| v.len())),
    }
    match manager.build_active(&registry, &context, &vec![call("log"), call("broken")]) {
        Err(LoomError::InterceptorError { .. }) => {}
        other => panic!("unexpected {:?}", other.map(|v| v.len())),
    }
    assert!(manager.build_active(&registry, &context, &vec![]).unwrap().is_empty());
}

#[test]
fn parallel_marks_the_run_as_parallel() {
    let parallel = ParallelDirectiveInterceptor::new();
    assert_eq!(parallel.directive_name(), "parallel");
    assert_eq!(parallel.priority(), 4000);
    assert!(parallel.need_chain());
    assert!(is_directive_priority(parallel.priority()));
    let registry = LoomContext::new();
    let mut context = ExecutionContext::new(ExecutionScope::Block);
    assert!(parallel.parse_parameters(&registry, &context, &call("parallel")).unwrap().is_empty());
    parallel.apply(&mut context);
    assert_eq!(context.parallelization_kind, ParallelizationKind::Parallel { max_thread: 2 });
    let mut manager: DirectiveInterceptorManager<ParallelDirectiveInterceptor> =
        DirectiveInterceptorManager::new();
    assert!(manager.register(parallel).is_ok());
}

struct Unranked;

impl DirectiveInterceptor for Unranked {
    fn directive_name(&self) -> String {
        "unranked".to_string()
    }

    fn parse_parameters(
        &self,
        _registry: &LoomContext,
        _context: &ExecutionContext,
        _call: &DirectiveCall,
    ) -> Result<Dictionary<LoomValue>, LoomError> {
        Ok(Dictionary::new())
    }

    fn need_chain(&self) -> bool {
        false
    }
}

#[test]
fn an_interceptor_that_gives_itself_no_priority_has_one_hundred() {
    assert_eq!(Unranked.priority(), 100);
    let mut manager: DirectiveInterceptorManager<Unranked> = DirectiveInterceptorManager::new();
    assert!(manager.register(Unranked).is_err());
}

#[test]
fn a_run_without_a_working_directory_has_no_workspace() {
    let mut context = ExecutionContext::new(ExecutionScope::Command);
    assert_eq!(Moment::observe(&context).workspace, None);
    context.working_dir = Some("/srv/projects/shop".to_string());
    assert_eq!(Moment::observe(&context).workspace, Some("shop".to_string()));
}

#[test]
fn a_node_without_directives_always_gets_its_chain() {
    let engine: loom_core::interceptor::engine::InterceptorEngine<Unranked> =
        loom_core::interceptor::engine::InterceptorEngine::new();
    let registry = LoomContext::new();
    let context = ExecutionContext::new(ExecutionScope::Command);
    let target = loom_core::interceptor::scope::ExecutionActivity::Command(
        loom_core::ast::Statement::Command { parts: vec![], directives: vec![] },
    );
    let chain = engine.build_target_chain(&registry, &context, &target, &vec![], None).unwrap();
    assert_eq!(chain.len(), 1);
    assert_eq!(engine.cache_stats(), Some(0));
}

struct Plain;

impl GlobalInterceptor for Plain {
    fn name(&self) -> String {
        "plain".to_string()
    }

    fn description(&self) -> String {
        "says nothing of what it is for".to_string()
    }

    fn default_config(&self) -> GlobalInterceptorConfig {
        config(9000)
    }

    fn need_chain(&self) -> bool {
        false
    }
}

#[test]
fn a_global_interceptor_is_for_general_use_unless_it_says_otherwise() {
    assert_eq!(Plain.category(), GlobalInterceptorCategory::General);
    assert_eq!(Audit.category(), GlobalInterceptorCategory::Security);
}

#[test]
fn an_interceptor_that_cannot_read_its_call_fails_the_whole() {
    let registry = LoomContext::new();
    let context = ExecutionContext::new(ExecutionScope::Command);
    let mut manager = DirectiveInterceptorManager::new();
    manager.register(Scripted { name: "cache", priority: 3500, fails: false }).unwrap();
    manager.register(Scripted { name: "timeout", priority: 7500, fails: true }).unwrap();
    let read = manager.build_active(&registry, &context, &vec![call("cache")]).unwrap();
    assert_eq!(read.len(), 1);
    assert_eq!(read[0].params.get("count"), Some(&LoomValue::Literal(LiteralValue::Number(0))));
    assert_eq!(
        manager.build_active(&registry, &context, &vec![call("cache"), call("timeout")]).err(),
        Some(LoomError::directive_interceptor("timeout", "cannot read the arguments"))
    );
}

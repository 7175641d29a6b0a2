use loom_core::dictionary::Dictionary;
use loom_core::event::channel::{EventFilter, ExecutionEvent, ExecutionEventKind};
use loom_core::interceptor::context::ExecutionContext;
use loom_core::interceptor::hook::registry::{apply_hook_result, HookRegistry};
use loom_core::interceptor::hook::{HookHandler, HookPayload};
use loom_core::interceptor::result::HookResult;
use loom_core::interceptor::scope::{ExecutionHook, ExecutionScope};

struct Tagger {
    hook: ExecutionHook,
    priority: i32,
    tag: &'static str,
    block: bool,
}

impl HookHandler for Tagger {
    fn hook_type(&self) -> ExecutionHook {
        self.hook
    }

    fn handle(&self, context: &mut ExecutionContext, _payload: &HookPayload) -> HookResult {
        let so_far = context.metadata.get("order").cloned().unwrap_or_default();
        if self.block {
            return HookResult::Block { reason: format!("{} says no", self.tag) };
        }
        let mut changes = Dictionary::new();
        changes.insert("order".to_string(), format!("{}{}", so_far, self.tag));
        HookResult::ModifyContext { changes }
    }

    fn priority(&self) -> i32 {
        self.priority
    }
}

struct Quiet;

impl HookHandler for Quiet {
    fn hook_type(&self) -> ExecutionHook {
        ExecutionHook::OnError
    }

    fn handle(&self, _context: &mut ExecutionContext, _payload: &HookPayload) -> HookResult {
        HookResult::Continue
    }
}

fn tagger(hook: ExecutionHook, priority: i32, tag: &'static str) -> Tagger {
    Tagger { hook, priority, tag, block: false }
}

#[test]
fn handlers_run_by_falling_priority_and_registration_order() {
    let mut registry = HookRegistry::new();
    registry.register_hook(tagger(ExecutionHook::PreCommand, 10, "c"));
    registry.register_hook(tagger(ExecutionHook::PreCommand, 50, "a"));
    registry.register_hook(tagger(ExecutionHook::PostCommand, 99, "x"));
    registry.register_hook(tagger(ExecutionHook::PreCommand, 50, "b"));
    assert_eq!(registry.len(), 4);
    let mut context = ExecutionContext::new(ExecutionScope::Command);
    let payload = HookPayload::Error { error: "e".into() };
    assert_eq!(registry.execute_hooks(ExecutionHook::PreCommand, &mut context, &payload), Ok(()));
    assert_eq!(context.metadata.get("order"), Some(&"abc".to_string()));
    assert_eq!(registry.execute_hooks(ExecutionHook::Cleanup, &mut context, &payload), Ok(()));
    assert_eq!(context.metadata.get("order"), Some(&"abc".to_string()));
}

#[test]
fn a_blocking_handler_stops_the_hook_with_its_reason() {
    let mut registry = HookRegistry::new();
    registry.register_hook(tagger(ExecutionHook::PreExecution, 90, "first"));
    registry.register_hook(Tagger {
        hook: ExecutionHook::PreExecution,
        priority: 50,
        tag: "guard",
        block: true,
    });
    registry.register_hook(tagger(ExecutionHook::PreExecution, 10, "never"));
    let mut context = ExecutionContext::new(ExecutionScope::Command);
    let payload = HookPayload::Command { command: vec!["ls".into()] };
    assert_eq!(
        registry.execute_hooks(ExecutionHook::PreExecution, &mut context, &payload),
        Err("guard says no".to_string())
    );
    assert_eq!(context.metadata.get("order"), Some(&"first".to_string()));
}

#[test]
fn answers_of_handlers_change_the_metadata_only() {
    let mut context = ExecutionContext::new(ExecutionScope::Command);
    assert_eq!(apply_hook_result(&mut context, HookResult::Continue), Ok(()));
    assert!(context.metadata.is_empty());
    assert_eq!(apply_hook_result(&mut context, HookResult::Retry { max_attempts: 3 }), Ok(()));
    assert_eq!(context.metadata.get("retry_max"), Some(&"3".to_string()));
    let mut changes = Dictionary::new();
    changes.insert("a".to_string(), "1".to_string());
    changes.insert("retry_max".to_string(), "5".to_string());
    assert_eq!(apply_hook_result(&mut context, HookResult::ModifyContext { changes }), Ok(()));
    assert_eq!(context.metadata.get("a"), Some(&"1".to_string()));
    assert_eq!(context.metadata.get("retry_max"), Some(&"5".to_string()));
    assert_eq!(
        apply_hook_result(&mut context, HookResult::Block { reason: "no".into() }),
        Err("no".to_string())
    );
    assert_eq!(context.metadata.len(), 2);
    let mut registry = HookRegistry::new();
    registry.register_hook(Quiet);
    assert_eq!(Quiet.priority(), 100);
    let payload = HookPayload::Custom { data: Dictionary::new() };
    assert_eq!(registry.execute_hooks(ExecutionHook::OnError, &mut context, &payload), Ok(()));
}

fn event(execution: &str, timestamp: u64, kind: ExecutionEventKind) -> ExecutionEvent {
    ExecutionEvent::new("id".into(), execution.into(), timestamp, kind, Dictionary::new())
}

fn failed() -> ExecutionEventKind {
    ExecutionEventKind::CommandFailed {
        command: "ls".into(),
        error: "no".into(),
        exit_code: Some(1),
        duration_ms: 12,
    }
}

fn started() -> ExecutionEventKind {
    ExecutionEventKind::ExecutionStarted { definition_name: "d".into(), definition_type: "job".into() }
}

#[test]
fn events_know_what_they_report() {
    assert!(event("r", 1, failed()).is_error());
    assert!(!event("r", 1, failed()).is_lifecycle());
    assert_eq!(event("r", 1, failed()).duration(), Some(12));
    assert!(event("r", 1, started()).is_lifecycle());
    assert!(!event("r", 1, started()).is_error());
    assert_eq!(event("r", 1, started()).duration(), None);
    let done = ExecutionEventKind::ExecutionFailed {
        definition_name: "d".into(),
        error: "e".into(),
        duration_ms: 7,
    };
    assert!(event("r", 1, done).is_error());
    let evaluated = ExecutionEventKind::ExpressionEvaluated {
        expression: "1+1".into(),
        result: "2".into(),
        evaluation_time_ms: 3,
    };
    assert_eq!(event("r", 1, evaluated).duration(), Some(3));
    let progress = ExecutionEventKind::ProgressUpdate {
        current_step: 1,
        total_steps: 4,
        current_task: "build".into(),
        percentage: 25.0f32.to_bits(),
    };
    assert_eq!(event("r", 1, progress).duration(), None);
}

#[test]
fn a_filter_passes_events_by_run_time_and_failure() {
    let all = EventFilter { execution_ids: None, event_types: None, time_range: None, only_errors: false };
    assert!(all.matches(&event("r", 1, started())));
    let runs = EventFilter {
        execution_ids: Some(vec!["a".into(), "b".into()]),
        event_types: Some(vec!["ignored".into()]),
        time_range: None,
        only_errors: false,
    };
    assert!(runs.matches(&event("b", 1, started())));
    assert!(!runs.matches(&event("c", 1, started())));
    let window = EventFilter {
        execution_ids: None,
        event_types: None,
        time_range: Some((10, 20)),
        only_errors: false,
    };
    assert!(window.matches(&event("r", 10, started())));
    assert!(window.matches(&event("r", 20, started())));
    assert!(!window.matches(&event("r", 9, started())));
    assert!(!window.matches(&event("r", 21, started())));
    let errors = EventFilter { execution_ids: None, event_types: None, time_range: None, only_errors: true };
    assert!(errors.matches(&event("r", 1, failed())));
    assert!(!errors.matches(&event("r", 1, started())));
    let nobody = EventFilter {
        execution_ids: Some(vec![]),
        event_types: None,
        time_range: None,
        only_errors: false,
    };
    assert!(!nobody.matches(&event("r", 1, started())));
}

struct Witness {
    priority: i32,
    name: &'static str,
}

impl HookHandler for Witness {
    fn hook_type(&self) -> ExecutionHook {
        ExecutionHook::PreCommand
    }

    fn handle(&self, context: &mut ExecutionContext, _payload: &HookPayload) -> HookResult {
        let seen = context.metadata.get("seen").cloned().unwrap_or_else(|| "nothing".to_string());
        context.variables.insert(
            format!("{}_saw", self.name),
            loom_core::types::LoomValue::Literal(loom_core::types::LiteralValue::String(seen)),
        );
        let mut changes = Dictionary::new();
        changes.insert("seen".to_string(), self.name.to_string());
        HookResult::ModifyContext { changes }
    }

    fn priority(&self) -> i32 {
        self.priority
    }
}

#[test]
fn each_handler_is_handed_the_state_that_the_one_before_left() {
    let text = |s: &str| {
        Some(loom_core::types::LoomValue::Literal(loom_core::types::LiteralValue::String(s.to_string())))
    };
    let mut registry = HookRegistry::new();
    registry.register_hook(Witness { priority: 10, name: "late" });
    registry.register_hook(Witness { priority: 90, name: "early" });
    let mut context = ExecutionContext::new(ExecutionScope::Command);
    context.metadata.insert("seen".to_string(), "the caller".to_string());
    let payload = HookPayload::Command { command: vec!["ls".into()] };
    assert_eq!(registry.execute_hooks(ExecutionHook::PreCommand, &mut context, &payload), Ok(()));
    assert_eq!(context.variables.get("early_saw").cloned(), text("the caller"));
    assert_eq!(context.variables.get("late_saw").cloned(), text("early"));
    assert_eq!(context.metadata.get("seen"), Some(&"late".to_string()));
}

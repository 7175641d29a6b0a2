use loom_core::error::{ErrorSeverity, InterceptorError, LoomError, UndefinedKind};
use loom_core::interceptor::scope::ExecutionScope;
use loom_core::types::Position;

#[test]
fn parse_error_keeps_message_and_position() {
    let e = LoomError::parse("unexpected token", Position::new(3, 7));
    match e {
        LoomError::ParseError { message, position } => {
            assert_eq!(message, "unexpected token");
            assert_eq!(position.line, 3);
            assert_eq!(position.column, 7);
        }
        _ => panic!("wrong variant"),
    }
}

#[test]
fn plain_constructors_fill_their_variant() {
    assert_eq!(
        LoomError::validation("bad"),
        LoomError::ValidationError { message: "bad".into(), position: None }
    );
    assert_eq!(
        LoomError::validation_at("bad", Position::new(2, 2)),
        LoomError::ValidationError { message: "bad".into(), position: Some(Position::new(2, 2)) }
    );
    assert_eq!(
        LoomError::execution("boom"),
        LoomError::ExecutionError { message: "boom".into(), position: None, cause: None }
    );
    assert_eq!(
        LoomError::execution_with_cause("outer", LoomError::execution("inner")),
        LoomError::ExecutionError {
            message: "outer".into(),
            position: None,
            cause: Some(Box::new(LoomError::execution("inner"))),
        }
    );
    assert_eq!(
        LoomError::type_error("number", "string", Position::new(1, 5)),
        LoomError::TypeError {
            expected: "number".into(),
            found: "string".into(),
            position: Position::new(1, 5),
        }
    );
    assert_eq!(
        LoomError::undefined("x", UndefinedKind::Variable, Position::new(1, 1)),
        LoomError::UndefinedError {
            name: "x".into(),
            kind: UndefinedKind::Variable,
            position: Position::new(1, 1),
        }
    );
    assert_eq!(LoomError::io("gone"), LoomError::IoError { message: "gone".into(), path: None });
    assert_eq!(
        LoomError::io_with_path("gone", "/tmp/x"),
        LoomError::IoError { message: "gone".into(), path: Some("/tmp/x".into()) }
    );
    assert_eq!(
        LoomError::conversion("Number", "bool", "5"),
        LoomError::ConversionError {
            from_type: "Number".into(),
            to_type: "bool".into(),
            value: "5".into(),
            position: None,
        }
    );
    assert_eq!(
        LoomError::conversion_at("Number", "bool", "5", Position::new(9, 9)),
        LoomError::ConversionError {
            from_type: "Number".into(),
            to_type: "bool".into(),
            value: "5".into(),
            position: Some(Position::new(9, 9)),
        }
    );
    assert_eq!(
        LoomError::concurrency("context", "write", "in use"),
        LoomError::ConcurrencyError {
            resource: "context".into(),
            operation: "write".into(),
            message: "in use".into(),
        }
    );
    assert_eq!(
        LoomError::expression("division", "Division by zero", Position::new(1, 1)),
        LoomError::ExpressionError {
            expression_type: "division".into(),
            message: "Division by zero".into(),
            position: Position::new(1, 1),
        }
    );
    assert_eq!(
        LoomError::not_implemented("pipelines", "engine"),
        LoomError::NotImplementedError {
            feature: "pipelines".into(),
            context: "engine".into(),
            position: None,
        }
    );
    assert_eq!(
        LoomError::definition_not_found("x", vec!["a".into(), "b".into()], Position::new(1, 1)),
        LoomError::DefinitionNotFoundError {
            name: "x".into(),
            available_definitions: vec!["a".into(), "b".into()],
            position: Position::new(1, 1),
        }
    );
    assert_eq!(
        LoomError::parameter_mismatch("deploy", 2, 3),
        LoomError::ParameterError {
            definition_name: "deploy".into(),
            expected_count: 2,
            provided_count: 3,
            parameter_name: None,
            position: None,
        }
    );
    assert_eq!(
        LoomError::interceptor_chain("audit", 4, LoomError::execution("inner")),
        LoomError::InterceptorChainError {
            interceptor_name: "audit".into(),
            chain_position: 4,
            cause: Box::new(LoomError::execution("inner")),
        }
    );
}

#[test]
fn interceptor_constructors_start_with_an_empty_stack() {
    let cases = vec![
        (
            LoomError::directive_interceptor("if", "m"),
            InterceptorError::Directive { name: "if".into(), message: "m".into() },
        ),
        (
            LoomError::global_interceptor("audit", "m"),
            InterceptorError::Global { name: "audit".into(), message: "m".into() },
        ),
        (
            LoomError::execution_interceptor(ExecutionScope::Job, "m"),
            InterceptorError::Execution { scope: ExecutionScope::Job, message: "m".into() },
        ),
        (
            LoomError::command_execution("ls", "m", Some(2)),
            InterceptorError::CommandExecution {
                command: "ls".into(),
                message: "m".into(),
                exit_code: Some(2),
            },
        ),
        (
            LoomError::definition_resolution("build", "m"),
            InterceptorError::DefinitionResolution { name: "build".into(), message: "m".into() },
        ),
        (
            LoomError::parameter_validation("build", "m"),
            InterceptorError::ParameterValidation { name: "build".into(), message: "m".into() },
        ),
        (LoomError::chain_execution("m"), InterceptorError::ChainExecution { message: "m".into() }),
        (LoomError::context_access("m"), InterceptorError::ContextAccess { message: "m".into() }),
        (
            LoomError::pipeline_execution("ci", "m"),
            InterceptorError::PipelineExecution {
                name: "ci".into(),
                stage: None,
                message: "m".into(),
            },
        ),
        (
            LoomError::pipeline_stage_execution("ci", "test", "m"),
            InterceptorError::PipelineExecution {
                name: "ci".into(),
                stage: Some("test".into()),
                message: "m".into(),
            },
        ),
        (
            LoomError::job_execution("lint", "m"),
            InterceptorError::JobExecution { name: "lint".into(), message: "m".into() },
        ),
    ];
    for (built, expected) in cases {
        assert_eq!(
            built,
            LoomError::InterceptorError { error: expected, interceptor_stack: vec![] }
        );
    }
}

#[test]
fn position_is_reported_by_the_kinds_that_carry_one() {
    let at = Position::new(5, 6);
    assert_eq!(LoomError::parse("m", at.clone()).position(), Some(&at));
    assert_eq!(LoomError::validation("m").position(), None);
    assert_eq!(LoomError::validation_at("m", at.clone()).position(), Some(&at));
    assert_eq!(LoomError::type_error("a", "b", at.clone()).position(), Some(&at));
    assert_eq!(LoomError::undefined("x", UndefinedKind::Enum, at.clone()).position(), Some(&at));
    assert_eq!(LoomError::execution("m").position(), None);
    assert_eq!(LoomError::expression("k", "m", at.clone()).position(), None);
    assert_eq!(LoomError::io("m").position(), None);
}

#[test]
fn severity_is_always_error() {
    assert_eq!(LoomError::io("m").severity(), ErrorSeverity::Error);
    assert_eq!(LoomError::execution("m").severity(), ErrorSeverity::Error);
}

#[test]
fn context_goes_before_the_message_of_an_execution_error_only() {
    assert_eq!(
        LoomError::execution("failed").with_context("while deploying"),
        LoomError::execution("while deploying: failed")
    );
    assert_eq!(LoomError::io("failed").with_context("while deploying"), LoomError::io("failed"));
}

#[test]
fn errors_come_from_strings_and_outside_errors() {
    assert_eq!(LoomError::from("failed".to_string()), LoomError::execution("failed"));
    let io = std::io::Error::new(std::io::ErrorKind::NotFound, "no such file");
    assert_eq!(LoomError::from(io), LoomError::io("no such file"));
    assert_eq!(
        LoomError::json_failure("expected value"),
        LoomError::validation("JSON error: expected value")
    );
    assert_eq!(UndefinedKind::EnumVariant.to_text(), "enum variant");
    assert_eq!(UndefinedKind::Recipe.to_text(), "recipe");
}

//! The closed set of errors that the library reports.

use vstd::prelude::*;
use vstd::string::*;
use crate::interceptor::scope::ExecutionScope;
use crate::text::texts;
use crate::types::{
    clone_optional_position, clone_optional_text, optional_position, optional_text, Position,
    PositionView,
};

verus! {

/// What kind of name was looked up and not found.
#[derive(Debug, Clone, Copy, PartialEq, Eq, Structural)]
pub enum UndefinedKind {
    Recipe,
    Job,
    Pipeline,
    Variable,
    Function,
    Enum,
    EnumVariant,
    Import,
}

impl UndefinedKind {
    /// The word used for the kind in messages.
    pub open spec fn label(self) -> Seq<char> {
        match self {
            UndefinedKind::Recipe => "recipe"@,
            UndefinedKind::Job => "job"@,
            UndefinedKind::Pipeline => "pipeline"@,
            UndefinedKind::Variable => "variable"@,
            UndefinedKind::Function => "function"@,
            UndefinedKind::Enum => "enum"@,
            UndefinedKind::EnumVariant => "enum variant"@,
            UndefinedKind::Import => "import"@,
        }
    }

    pub fn to_text(&self) -> (r: String)
        ensures
            r@ == self.label(),
    {
        match self {
            UndefinedKind::Recipe => String::from_str("recipe"),
            UndefinedKind::Job => String::from_str("job"),
            UndefinedKind::Pipeline => String::from_str("pipeline"),
            UndefinedKind::Variable => String::from_str("variable"),
            UndefinedKind::Function => String::from_str("function"),
            UndefinedKind::Enum => String::from_str("enum"),
            UndefinedKind::EnumVariant => String::from_str("enum variant"),
            UndefinedKind::Import => String::from_str("import"),
        }
    }
}

/// How serious an error is.
#[derive(Debug, Clone, Copy, PartialEq, Eq, Structural)]
pub enum ErrorSeverity {
    Error,
    Warning,
    Info,
}

/// What went wrong inside or around an interceptor.
#[derive(Debug, PartialEq)]
pub enum InterceptorError {
    Directive { name: String, message: String },
    Global { name: String, message: String },
    Execution { scope: ExecutionScope, message: String },
    CommandExecution { command: String, message: String, exit_code: Option<i32> },
    DefinitionResolution { name: String, message: String },
    ParameterValidation { name: String, message: String },
    ChainExecution { message: String },
    ContextAccess { message: String },
    PipelineExecution { name: String, stage: Option<String>, message: String },
    JobExecution { name: String, message: String },
}

/// An interceptor error as the contracts see it.
pub enum InterceptorErrorView {
    Directive { name: Seq<char>, message: Seq<char> },
    Global { name: Seq<char>, message: Seq<char> },
    Execution { scope: ExecutionScope, message: Seq<char> },
    CommandExecution { command: Seq<char>, message: Seq<char>, exit_code: Option<i32> },
    DefinitionResolution { name: Seq<char>, message: Seq<char> },
    ParameterValidation { name: Seq<char>, message: Seq<char> },
    ChainExecution { message: Seq<char> },
    ContextAccess { message: Seq<char> },
    PipelineExecution { name: Seq<char>, stage: Option<Seq<char>>, message: Seq<char> },
    JobExecution { name: Seq<char>, message: Seq<char> },
}

impl View for InterceptorError {
    type V = InterceptorErrorView;

    open spec fn view(&self) -> InterceptorErrorView {
        match self {
            InterceptorError::Directive { name, message } => InterceptorErrorView::Directive {
                name: name@,
                message: message@,
            },
            InterceptorError::Global { name, message } => InterceptorErrorView::Global {
                name: name@,
                message: message@,
            },
            InterceptorError::Execution { scope, message } => InterceptorErrorView::Execution {
                scope: *scope,
                message: message@,
            },
            InterceptorError::CommandExecution {
                command,
                message,
                exit_code,
            } => InterceptorErrorView::CommandExecution {
                command: command@,
                message: message@,
                exit_code: *exit_code,
            },
            InterceptorError::DefinitionResolution {
                name,
                message,
            } => InterceptorErrorView::DefinitionResolution { name: name@, message: message@ },
            InterceptorError::ParameterValidation {
                name,
                message,
            } => InterceptorErrorView::ParameterValidation { name: name@, message: message@ },
            InterceptorError::ChainExecution { message } => InterceptorErrorView::ChainExecution {
                message: message@,
            },
            InterceptorError::ContextAccess { message } => InterceptorErrorView::ContextAccess {
                message: message@,
            },
            InterceptorError::PipelineExecution {
                name,
                stage,
                message,
            } => InterceptorErrorView::PipelineExecution {
                name: name@,
                stage: optional_text(*stage),
                message: message@,
            },
            InterceptorError::JobExecution { name, message } => InterceptorErrorView::JobExecution {
                name: name@,
                message: message@,
            },
        }
    }
}

impl Clone for InterceptorError {
    fn clone(&self) -> (r: Self)
        ensures
            r@ == self@,
    {
        match self {
            InterceptorError::Directive { name, message } => InterceptorError::Directive {
                name: name.clone(),
                message: message.clone(),
            },
            InterceptorError::Global { name, message } => InterceptorError::Global {
                name: name.clone(),
                message: message.clone(),
            },
            InterceptorError::Execution { scope, message } => InterceptorError::Execution {
                scope: *scope,
                message: message.clone(),
            },
            InterceptorError::CommandExecution {
                command,
                message,
                exit_code,
            } => InterceptorError::CommandExecution {
                command: command.clone(),
                message: message.clone(),
                exit_code: *exit_code,
            },
            InterceptorError::DefinitionResolution {
                name,
                message,
            } => InterceptorError::DefinitionResolution {
                name: name.clone(),
                message: message.clone(),
            },
            InterceptorError::ParameterValidation {
                name,
                message,
            } => InterceptorError::ParameterValidation {
                name: name.clone(),
                message: message.clone(),
            },
            InterceptorError::ChainExecution { message } => InterceptorError::ChainExecution {
                message: message.clone(),
            },
            InterceptorError::ContextAccess { message } => InterceptorError::ContextAccess {
                message: message.clone(),
            },
            InterceptorError::PipelineExecution {
                name,
                stage,
                message,
            } => InterceptorError::PipelineExecution {
                name: name.clone(),
                stage: clone_optional_text(stage),
                message: message.clone(),
            },
            InterceptorError::JobExecution { name, message } => InterceptorError::JobExecution {
                name: name.clone(),
                message: message.clone(),
            },
        }
    }
}

/// The errors of the library.
#[allow(inconsistent_fields)]
#[derive(Debug, PartialEq)]
pub enum LoomError {
    /// The source text could not be parsed.
    ParseError { message: String, position: Position },
    /// The source is well formed but breaks a rule.
    ValidationError { message: String, position: Option<Position> },
    /// Something failed while running.
    ExecutionError { message: String, position: Option<Position>, cause: Option<Box<LoomError>> },
    /// A module could not be imported.
    ImportError { message: String, import_path: String, position: Position },
    /// A value has the wrong type.
    TypeError { expected: String, found: String, position: Position },
    /// A name was used that nothing defines.
    UndefinedError { name: String, kind: UndefinedKind, position: Position },
    /// Reading or writing failed.
    IoError { message: String, path: Option<String> },
    /// The configuration is wrong.
    ConfigError { message: String, path: Option<String> },
    /// A plugin failed.
    PluginError { message: String, plugin_name: String },
    /// An interceptor failed; the stack names the interceptors that had
    /// already run.
    InterceptorError { error: InterceptorError, interceptor_stack: Vec<String> },
    /// A value could not be converted to another type.
    ConversionError { from_type: String, to_type: String, value: String, position: Option<Position> },
    /// A shared resource was in use.
    ConcurrencyError { resource: String, operation: String, message: String },
    /// An expression could not be evaluated.
    ExpressionError { expression_type: String, message: String, position: Position },
    /// The feature is not there yet.
    NotImplementedError { feature: String, context: String, position: Option<Position> },
    /// No definition has the name; the known names follow.
    DefinitionNotFoundError { name: String, available_definitions: Vec<String>, position: Position },
    /// Wrong number of arguments, or an argument that no parameter takes.
    ParameterError {
        definition_name: String,
        expected_count: usize,
        provided_count: usize,
        parameter_name: Option<String>,
        position: Option<Position>,
    },
    /// An interceptor of a chain failed at the given place.
    InterceptorChainError { interceptor_name: String, chain_position: usize, cause: Box<LoomError> },
}

/// An error as the contracts see it.
#[allow(inconsistent_fields)]
pub enum ErrorView {
    ParseError { message: Seq<char>, position: PositionView },
    ValidationError { message: Seq<char>, position: Option<PositionView> },
    ExecutionError {
        message: Seq<char>,
        position: Option<PositionView>,
        cause: Option<Box<ErrorView>>,
    },
    ImportError { message: Seq<char>, import_path: Seq<char>, position: PositionView },
    TypeError { expected: Seq<char>, found: Seq<char>, position: PositionView },
    UndefinedError { name: Seq<char>, kind: UndefinedKind, position: PositionView },
    IoError { message: Seq<char>, path: Option<Seq<char>> },
    ConfigError { message: Seq<char>, path: Option<Seq<char>> },
    PluginError { message: Seq<char>, plugin_name: Seq<char> },
    InterceptorError { error: InterceptorErrorView, interceptor_stack: Seq<Seq<char>> },
    ConversionError {
        from_type: Seq<char>,
        to_type: Seq<char>,
        value: Seq<char>,
        position: Option<PositionView>,
    },
    ConcurrencyError { resource: Seq<char>, operation: Seq<char>, message: Seq<char> },
    ExpressionError { expression_type: Seq<char>, message: Seq<char>, position: PositionView },
    NotImplementedError { feature: Seq<char>, context: Seq<char>, position: Option<PositionView> },
    DefinitionNotFoundError {
        name: Seq<char>,
        available_definitions: Seq<Seq<char>>,
        position: PositionView,
    },
    ParameterError {
        definition_name: Seq<char>,
        expected_count: nat,
        provided_count: nat,
        parameter_name: Option<Seq<char>>,
        position: Option<PositionView>,
    },
    InterceptorChainError { interceptor_name: Seq<char>, chain_position: nat, cause: Box<ErrorView> },
}

/// The view of an error.
pub open spec fn error_view(e: LoomError) -> ErrorView
    decreases e,
{
    match e {
        LoomError::ParseError { message, position } => ErrorView::ParseError {
            message: message@,
            position: position@,
        },
        LoomError::ValidationError { message, position } => ErrorView::ValidationError {
            message: message@,
            position: optional_position(position),
        },
        LoomError::ExecutionError { message, position, cause } => ErrorView::ExecutionError {
            message: message@,
            position: optional_position(position),
            cause: match cause {
                Some(c) => Some(Box::new(error_view(*c))),
                None => None,
            },
        },
        LoomError::ImportError { message, import_path, position } => ErrorView::ImportError {
            message: message@,
            import_path: import_path@,
            position: position@,
        },
        LoomError::TypeError { expected, found, position } => ErrorView::TypeError {
            expected: expected@,
            found: found@,
            position: position@,
        },
        LoomError::UndefinedError { name, kind, position } => ErrorView::UndefinedError {
            name: name@,
            kind,
            position: position@,
        },
        LoomError::IoError { message, path } => ErrorView::IoError {
            message: message@,
            path: optional_text(path),
        },
        LoomError::ConfigError { message, path } => ErrorView::ConfigError {
            message: message@,
            path: optional_text(path),
        },
        LoomError::PluginError { message, plugin_name } => ErrorView::PluginError {
            message: message@,
            plugin_name: plugin_name@,
        },
        LoomError::InterceptorError { error, interceptor_stack } => ErrorView::InterceptorError {
            error: error@,
            interceptor_stack: texts(interceptor_stack@),
        },
        LoomError::ConversionError {
            from_type,
            to_type,
            value,
            position,
        } => ErrorView::ConversionError {
            from_type: from_type@,
            to_type: to_type@,
            value: value@,
            position: optional_position(position),
        },
        LoomError::ConcurrencyError {
            resource,
            operation,
            message,
        } => ErrorView::ConcurrencyError {
            resource: resource@,
            operation: operation@,
            message: message@,
        },
        LoomError::ExpressionError {
            expression_type,
            message,
            position,
        } => ErrorView::ExpressionError {
            expression_type: expression_type@,
            message: message@,
            position: position@,
        },
        LoomError::NotImplementedError {
            feature,
            context,
            position,
        } => ErrorView::NotImplementedError {
            feature: feature@,
            context: context@,
            position: optional_position(position),
        },
        LoomError::DefinitionNotFoundError {
            name,
            available_definitions,
            position,
        } => ErrorView::DefinitionNotFoundError {
            name: name@,
            available_definitions: texts(available_definitions@),
            position: position@,
        },
        LoomError::ParameterError {
            definition_name,
            expected_count,
            provided_count,
            parameter_name,
            position,
        } => ErrorView::ParameterError {
            definition_name: definition_name@,
            expected_count: expected_count as nat,
            provided_count: provided_count as nat,
            parameter_name: optional_text(parameter_name),
            position: optional_position(position),
        },
        LoomError::InterceptorChainError {
            interceptor_name,
            chain_position,
            cause,
        } => ErrorView::InterceptorChainError {
            interceptor_name: interceptor_name@,
            chain_position: chain_position as nat,
            cause: Box::new(error_view(*cause)),
        },
    }
}

impl View for LoomError {
    type V = ErrorView;

    open spec fn view(&self) -> ErrorView {
        error_view(*self)
    }
}

impl ErrorView {
    /// The position that the error carries, for the kinds that report one.
    pub open spec fn position(self) -> Option<PositionView> {
        match self {
            ErrorView::ParseError { position, .. } => Some(position),
            ErrorView::ValidationError { position, .. } => position,
            ErrorView::ExecutionError { position, .. } => position,
            ErrorView::ImportError { position, .. } => Some(position),
            ErrorView::TypeError { position, .. } => Some(position),
            ErrorView::UndefinedError { position, .. } => Some(position),
            _ => None,
        }
    }

    /// The error with `context` and a colon put before the message of an
    /// execution error; any other error unchanged.
    pub open spec fn with_context(self, context: Seq<char>) -> ErrorView {
        match self {
            ErrorView::ExecutionError { message, position, cause } => ErrorView::ExecutionError {
                message: context + ": "@ + message,
                position,
                cause,
            },
            _ => self,
        }
    }

    /// An execution error with a message and nothing else.
    pub open spec fn plain(message: Seq<char>) -> ErrorView {
        ErrorView::ExecutionError { message, position: None, cause: None }
    }

    /// An interceptor error on which no interceptor has run yet.
    pub open spec fn interceptor(error: InterceptorErrorView) -> ErrorView {
        ErrorView::InterceptorError { error, interceptor_stack: Seq::empty() }
    }
}

/// A copy of a list of strings.
pub fn clone_texts(v: &Vec<String>) -> (r: Vec<String>)
    ensures
        texts(r@) == texts(v@),
{
    let mut out: Vec<String> = Vec::new();
    let mut i: usize = 0;
    while i < v.len()
        invariant
            i <= v.len(),
            out.len() == i,
            forall|j: int| 0 <= j < i ==> out@[j]@ == v@[j]@,
        decreases v.len() - i,
    {
        out.push(v[i].clone());
        i += 1;
    }
    assert(texts(out@) =~= texts(v@));
    out
}

impl Clone for LoomError {
    fn clone(&self) -> (r: Self)
        ensures
            r@ == self@,
        decreases self,
    {
        match self {
            LoomError::ParseError { message, position } => LoomError::ParseError {
                message: message.clone(),
                position: position.clone(),
            },
            LoomError::ValidationError { message, position } => LoomError::ValidationError {
                message: message.clone(),
                position: clone_optional_position(position),
            },
            LoomError::ExecutionError { message, position, cause } => LoomError::ExecutionError {
                message: message.clone(),
                position: clone_optional_position(position),
                cause: match cause {
                    Some(c) => Some(Box::new((**c).clone())),
                    None => None,
                },
            },
            LoomError::ImportError { message, import_path, position } => LoomError::ImportError {
                message: message.clone(),
                import_path: import_path.clone(),
                position: position.clone(),
            },
            LoomError::TypeError { expected, found, position } => LoomError::TypeError {
                expected: expected.clone(),
                found: found.clone(),
                position: position.clone(),
            },
            LoomError::UndefinedError { name, kind, position } => LoomError::UndefinedError {
                name: name.clone(),
                kind: *kind,
                position: position.clone(),
            },
            LoomError::IoError { message, path } => LoomError::IoError {
                message: message.clone(),
                path: clone_optional_text(path),
            },
            LoomError::ConfigError { message, path } => LoomError::ConfigError {
                message: message.clone(),
                path: clone_optional_text(path),
            },
            LoomError::PluginError { message, plugin_name } => LoomError::PluginError {
                message: message.clone(),
                plugin_name: plugin_name.clone(),
            },
            LoomError::InterceptorError { error, interceptor_stack } => LoomError::InterceptorError {
                error: error.clone(),
                interceptor_stack: clone_texts(interceptor_stack),
            },
            LoomError::ConversionError {
                from_type,
                to_type,
                value,
                position,
            } => LoomError::ConversionError {
                from_type: from_type.clone(),
                to_type: to_type.clone(),
                value: value.clone(),
                position: clone_optional_position(position),
            },
            LoomError::ConcurrencyError {
                resource,
                operation,
                message,
            } => LoomError::ConcurrencyError {
                resource: resource.clone(),
                operation: operation.clone(),
                message: message.clone(),
            },
            LoomError::ExpressionError {
                expression_type,
                message,
                position,
            } => LoomError::ExpressionError {
                expression_type: expression_type.clone(),
                message: message.clone(),
                position: position.clone(),
            },
            LoomError::NotImplementedError {
                feature,
                context,
                position,
            } => LoomError::NotImplementedError {
                feature: feature.clone(),
                context: context.clone(),
                position: clone_optional_position(position),
            },
            LoomError::DefinitionNotFoundError {
                name,
                available_definitions,
                position,
            } => LoomError::DefinitionNotFoundError {
                name: name.clone(),
                available_definitions: clone_texts(available_definitions),
                position: position.clone(),
            },
            LoomError::ParameterError {
                definition_name,
                expected_count,
                provided_count,
                parameter_name,
                position,
            } => LoomError::ParameterError {
                definition_name: definition_name.clone(),
                expected_count: *expected_count,
                provided_count: *provided_count,
                parameter_name: clone_optional_text(parameter_name),
                position: clone_optional_position(position),
            },
            LoomError::InterceptorChainError {
                interceptor_name,
                chain_position,
                cause,
            } => LoomError::InterceptorChainError {
                interceptor_name: interceptor_name.clone(),
                chain_position: *chain_position,
                cause: Box::new((**cause).clone()),
            },
        }
    }
}

impl LoomError {
    /// The interceptor error `error`, with no interceptor on its stack yet.
    pub fn raise(error: InterceptorError) -> (r: Self)
        ensures
            r@ == ErrorView::interceptor(error@),
    {
        let r = LoomError::InterceptorError { error, interceptor_stack: Vec::new() };
        assert(texts(Seq::<String>::empty()) =~= Seq::<Seq<char>>::empty());
        r
    }

    /// A parse error at `position`.
    pub fn parse(message: &str, position: Position) -> (r: Self)
        ensures
            r@ == (ErrorView::ParseError { message: message@, position: position@ }),
    {
        LoomError::ParseError { message: String::from_str(message), position }
    }

    /// A validation error without a position.
    pub fn validation(message: &str) -> (r: Self)
        ensures
            r@ == (ErrorView::ValidationError { message: message@, position: None }),
    {
        LoomError::ValidationError { message: String::from_str(message), position: None }
    }

    /// A validation error at `position`.
    pub fn validation_at(message: &str, position: Position) -> (r: Self)
        ensures
            r@ == (ErrorView::ValidationError { message: message@, position: Some(position@) }),
    {
        LoomError::ValidationError { message: String::from_str(message), position: Some(position) }
    }

    /// An execution error with a message and nothing else.
    pub fn execution(message: &str) -> (r: Self)
        ensures
            r@ == ErrorView::plain(message@),
    {
        LoomError::ExecutionError { message: String::from_str(message), position: None, cause: None }
    }

    /// An execution error that names what caused it.
    pub fn execution_with_cause(message: &str, cause: LoomError) -> (r: Self)
        ensures
            r@ == (ErrorView::ExecutionError {
                message: message@,
                position: None,
                cause: Some(Box::new(cause@)),
            }),
    {
        LoomError::ExecutionError {
            message: String::from_str(message),
            position: None,
            cause: Some(Box::new(cause)),
        }
    }

    /// A type error at `position`.
    pub fn type_error(expected: &str, found: &str, position: Position) -> (r: Self)
        ensures
            r@ == (ErrorView::TypeError {
                expected: expected@,
                found: found@,
                position: position@,
            }),
    {
        LoomError::TypeError {
            expected: String::from_str(expected),
            found: String::from_str(found),
            position,
        }
    }

    /// A name of the given kind that nothing defines.
    pub fn undefined(name: &str, kind: UndefinedKind, position: Position) -> (r: Self)
        ensures
            r@ == (ErrorView::UndefinedError { name: name@, kind, position: position@ }),
    {
        LoomError::UndefinedError { name: String::from_str(name), kind, position }
    }

    /// An I/O error without a path.
    pub fn io(message: &str) -> (r: Self)
        ensures
            r@ == (ErrorView::IoError { message: message@, path: None }),
    {
        LoomError::IoError { message: String::from_str(message), path: None }
    }

    /// An I/O error on `path`.
    pub fn io_with_path(message: &str, path: &str) -> (r: Self)
        ensures
            r@ == (ErrorView::IoError { message: message@, path: Some(path@) }),
    {
        LoomError::IoError { message: String::from_str(message), path: Some(String::from_str(path)) }
    }

    /// A failure of the directive interceptor `name`.
    pub fn directive_interceptor(name: &str, message: &str) -> (r: Self)
        ensures
            r@ == ErrorView::interceptor(
                InterceptorErrorView::Directive { name: name@, message: message@ },
            ),
    {
        LoomError::raise(
            InterceptorError::Directive {
                name: String::from_str(name),
                message: String::from_str(message),
            },
        )
    }

    /// A failure of the global interceptor `name`.
    pub fn global_interceptor(name: &str, message: &str) -> (r: Self)
        ensures
            r@ == ErrorView::interceptor(
                InterceptorErrorView::Global { name: name@, message: message@ },
            ),
    {
        LoomError::raise(
            InterceptorError::Global {
                name: String::from_str(name),
                message: String::from_str(message),
            },
        )
    }

    /// A failure of an executor interceptor working on a node of kind `scope`.
    pub fn execution_interceptor(scope: ExecutionScope, message: &str) -> (r: Self)
        ensures
            r@ == ErrorView::interceptor(
                InterceptorErrorView::Execution { scope, message: message@ },
            ),
    {
        LoomError::raise(
            InterceptorError::Execution { scope, message: String::from_str(message) },
        )
    }

    /// A command that failed, with its exit code where there is one.
    pub fn command_execution(command: &str, message: &str, exit_code: Option<i32>) -> (r: Self)
        ensures
            r@ == ErrorView::interceptor(
                InterceptorErrorView::CommandExecution {
                    command: command@,
                    message: message@,
                    exit_code,
                },
            ),
    {
        LoomError::raise(
            InterceptorError::CommandExecution {
                command: String::from_str(command),
                message: String::from_str(message),
                exit_code,
            },
        )
    }

    /// A called definition that could not be resolved.
    pub fn definition_resolution(name: &str, message: &str) -> (r: Self)
        ensures
            r@ == ErrorView::interceptor(
                InterceptorErrorView::DefinitionResolution { name: name@, message: message@ },
            ),
    {
        LoomError::raise(
            InterceptorError::DefinitionResolution {
                name: String::from_str(name),
                message: String::from_str(message),
            },
        )
    }

    /// Arguments that do not fit the parameters of `name`.
    pub fn parameter_validation(name: &str, message: &str) -> (r: Self)
        ensures
            r@ == ErrorView::interceptor(
                InterceptorErrorView::ParameterValidation { name: name@, message: message@ },
            ),
    {
        LoomError::raise(
            InterceptorError::ParameterValidation {
                name: String::from_str(name),
                message: String::from_str(message),
            },
        )
    }

    /// A failure of the chain itself.
    pub fn chain_execution(message: &str) -> (r: Self)
        ensures
            r@ == ErrorView::interceptor(InterceptorErrorView::ChainExecution { message: message@ }),
    {
        LoomError::raise(
            InterceptorError::ChainExecution { message: String::from_str(message) },
        )
    }

    /// The execution context could not be read or written.
    pub fn context_access(message: &str) -> (r: Self)
        ensures
            r@ == ErrorView::interceptor(InterceptorErrorView::ContextAccess { message: message@ }),
    {
        LoomError::raise(
            InterceptorError::ContextAccess { message: String::from_str(message) },
        )
    }

    /// A failure of the pipeline `name`, outside any stage.
    pub fn pipeline_execution(name: &str, message: &str) -> (r: Self)
        ensures
            r@ == ErrorView::interceptor(
                InterceptorErrorView::PipelineExecution {
                    name: name@,
                    stage: None,
                    message: message@,
                },
            ),
    {
        LoomError::raise(
            InterceptorError::PipelineExecution {
                name: String::from_str(name),
                stage: None,
                message: String::from_str(message),
            },
        )
    }

    /// A failure of the pipeline `name` in `stage`.
    pub fn pipeline_stage_execution(name: &str, stage: &str, message: &str) -> (r: Self)
        ensures
            r@ == ErrorView::interceptor(
                InterceptorErrorView::PipelineExecution {
                    name: name@,
                    stage: Some(stage@),
                    message: message@,
                },
            ),
    {
        LoomError::raise(
            InterceptorError::PipelineExecution {
                name: String::from_str(name),
                stage: Some(String::from_str(stage)),
                message: String::from_str(message),
            },
        )
    }

    /// A failure of the job `name`.
    pub fn job_execution(name: &str, message: &str) -> (r: Self)
        ensures
            r@ == ErrorView::interceptor(
                InterceptorErrorView::JobExecution { name: name@, message: message@ },
            ),
    {
        LoomError::raise(
            InterceptorError::JobExecution {
                name: String::from_str(name),
                message: String::from_str(message),
            },
        )
    }

    /// A value that could not be converted.
    pub fn conversion(from_type: &str, to_type: &str, value: &str) -> (r: Self)
        ensures
            r@ == (ErrorView::ConversionError {
                from_type: from_type@,
                to_type: to_type@,
                value: value@,
                position: None,
            }),
    {
        LoomError::ConversionError {
            from_type: String::from_str(from_type),
            to_type: String::from_str(to_type),
            value: String::from_str(value),
            position: None,
        }
    }

    /// A value at `position` that could not be converted.
    pub fn conversion_at(from_type: &str, to_type: &str, value: &str, position: Position) -> (r:
        Self)
        ensures
            r@ == (ErrorView::ConversionError {
                from_type: from_type@,
                to_type: to_type@,
                value: value@,
                position: Some(position@),
            }),
    {
        LoomError::ConversionError {
            from_type: String::from_str(from_type),
            to_type: String::from_str(to_type),
            value: String::from_str(value),
            position: Some(position),
        }
    }

    /// A resource that was in use during `operation`.
    pub fn concurrency(resource: &str, operation: &str, message: &str) -> (r: Self)
        ensures
            r@ == (ErrorView::ConcurrencyError {
                resource: resource@,
                operation: operation@,
                message: message@,
            }),
    {
        LoomError::ConcurrencyError {
            resource: String::from_str(resource),
            operation: String::from_str(operation),
            message: String::from_str(message),
        }
    }

    /// An expression of the given kind that could not be evaluated.
    pub fn expression(expression_type: &str, message: &str, position: Position) -> (r: Self)
        ensures
            r@ == (ErrorView::ExpressionError {
                expression_type: expression_type@,
                message: message@,
                position: position@,
            }),
    {
        LoomError::ExpressionError {
            expression_type: String::from_str(expression_type),
            message: String::from_str(message),
            position,
        }
    }

    /// A feature that is not there yet.
    pub fn not_implemented(feature: &str, context: &str) -> (r: Self)
        ensures
            r@ == (ErrorView::NotImplementedError {
                feature: feature@,
                context: context@,
                position: None,
            }),
    {
        LoomError::NotImplementedError {
            feature: String::from_str(feature),
            context: String::from_str(context),
            position: None,
        }
    }

    /// No definition is called `name`; `available` lists the known names.
    pub fn definition_not_found(name: &str, available: Vec<String>, position: Position) -> (r:
        Self)
        ensures
            r@ == (ErrorView::DefinitionNotFoundError {
                name: name@,
                available_definitions: texts(available@),
                position: position@,
            }),
    {
        LoomError::DefinitionNotFoundError {
            name: String::from_str(name),
            available_definitions: available,
            position,
        }
    }

    /// `provided` arguments where `expected` were wanted.
    pub fn parameter_mismatch(definition_name: &str, expected: usize, provided: usize) -> (r: Self)
        ensures
            r@ == (ErrorView::ParameterError {
                definition_name: definition_name@,
                expected_count: expected as nat,
                provided_count: provided as nat,
                parameter_name: None,
                position: None,
            }),
    {
        LoomError::ParameterError {
            definition_name: String::from_str(definition_name),
            expected_count: expected,
            provided_count: provided,
            parameter_name: None,
            position: None,
        }
    }

    /// The failure `cause` of the interceptor at `chain_position`.
    pub fn interceptor_chain(interceptor_name: &str, chain_position: usize, cause: LoomError) -> (r:
        Self)
        ensures
            r@ == (ErrorView::InterceptorChainError {
                interceptor_name: interceptor_name@,
                chain_position: chain_position as nat,
                cause: Box::new(cause@),
            }),
    {
        LoomError::InterceptorChainError {
            interceptor_name: String::from_str(interceptor_name),
            chain_position,
            cause: Box::new(cause),
        }
    }

    /// The position that the error carries, if its kind reports one.
    pub fn position(&self) -> (r: Option<&Position>)
        ensures
            match r {
                Some(p) => self@.position() == Some(p@),
                None => self@.position() is None,
            },
    {
        match self {
            LoomError::ParseError { position, .. } => Some(position),
            LoomError::ValidationError { position, .. } => position.as_ref(),
            LoomError::ExecutionError { position, .. } => position.as_ref(),
            LoomError::ImportError { position, .. } => Some(position),
            LoomError::TypeError { position, .. } => Some(position),
            LoomError::UndefinedError { position, .. } => Some(position),
            _ => None,
        }
    }

    /// Every error of the library is of severity `Error`.
    pub fn severity(&self) -> (r: ErrorSeverity)
        ensures
            r == ErrorSeverity::Error,
    {
        ErrorSeverity::Error
    }

    /// Puts `context` and a colon before the message of an execution error;
    /// any other error is handed back as it came.
    pub fn with_context(self, context: &str) -> (r: Self)
        ensures
            r@ == self@.with_context(context@),
    {
        match self {
            LoomError::ExecutionError { message, position, cause } => {
                let mut text = String::from_str(context);
                text.append(": ");
                text.append(message.as_str());
                LoomError::ExecutionError { message: text, position, cause }
            },
            other => other,
        }
    }

    /// An execution error whose message is the given text.
    pub fn from_message(message: String) -> (r: Self)
        ensures
            r@ == ErrorView::plain(message@),
    {
        LoomError::ExecutionError { message, position: None, cause: None }
    }
}


/// `serde_json::Error`, the error of reading or writing JSON. The library
/// takes only its message from it.
#[verifier::external_type_specification]
#[verifier::external_body]
pub struct ExJsonError(serde_json::Error);

/// `std::io::Error`. The library takes only its message from it.
#[verifier::external_type_specification]
#[verifier::external_body]
pub struct ExIoError(std::io::Error);

/// The message of an error of `serde_json`, as its `Display` writes it.
/// Nothing is promised about the text.
#[verifier::external_body]
fn json_error_text(error: &serde_json::Error) -> (r: String) {
    error.to_string()
}

/// The message of an error of `std::io`, as its `Display` writes it.
/// Nothing is promised about the text.
#[verifier::external_body]
fn io_error_text(error: &std::io::Error) -> (r: String) {
    error.to_string()
}

impl LoomError {
    /// The validation error for a JSON document that could not be read, from
    /// the message of the reader.
    pub fn json_failure(message: &str) -> (r: Self)
        ensures
            r@ == (ErrorView::ValidationError { message: "JSON error: "@ + message@, position: None }),
    {
        let mut text = String::from_str("JSON error: ");
        text.append(message);
        LoomError::ValidationError { message: text, position: None }
    }
}

impl From<String> for LoomError {
    fn from(error: String) -> (r: Self) {
        LoomError::ExecutionError { message: error, position: None, cause: None }
    }
}

impl vstd::std_specs::convert::FromSpecImpl<String> for LoomError {
    open spec fn obeys_from_spec() -> bool {
        true
    }

    open spec fn from_spec(error: String) -> Self {
        LoomError::ExecutionError { message: error, position: None, cause: None }
    }
}

impl From<serde_json::Error> for LoomError {
    fn from(error: serde_json::Error) -> (r: Self)
        ensures
            r@ is ValidationError,
            r@->ValidationError_position is None,
            exists|text: Seq<char>| r@->ValidationError_message == "JSON error: "@ + text,
    {
        let text = json_error_text(&error);
        let r = LoomError::json_failure(text.as_str());
        assert(r@->ValidationError_message == "JSON error: "@ + text@);
        r
    }
}

impl vstd::std_specs::convert::FromSpecImpl<serde_json::Error> for LoomError {
    open spec fn obeys_from_spec() -> bool {
        false
    }

    open spec fn from_spec(error: serde_json::Error) -> Self {
        arbitrary()
    }
}

impl From<std::io::Error> for LoomError {
    fn from(error: std::io::Error) -> (r: Self)
        ensures
            r@ is IoError,
            r@->IoError_path is None,
    {
        let text = io_error_text(&error);
        LoomError::io(text.as_str())
    }
}

impl vstd::std_specs::convert::FromSpecImpl<std::io::Error> for LoomError {
    open spec fn obeys_from_spec() -> bool {
        false
    }

    open spec fn from_spec(error: std::io::Error) -> Self {
        arbitrary()
    }
}

} // verus!

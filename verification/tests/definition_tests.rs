use loom_core::ast::{BinaryOperator, DirectiveCall, Expression};
use loom_core::binding::has_float;
use loom_core::context::{LoomContext, Module};
use loom_core::definition::directive::definition::DirectiveDefinition;
use loom_core::definition::directive::scope::DirectiveScope;
use loom_core::definition::function::FunctionDefinition;
use loom_core::definition::parameter::{
    can_be_positional, determine_argument_type, fits, has_varargs_parameter, validate_arguments,
    validate_literal_argument_types, validate_literal_type, validate_named_arguments,
    validate_parameter_definitions, validate_positional_arguments, validate_validation_rules,
    ArgumentType,
};
use loom_core::definition::{ArgDefinition, ParameterDefinition, ParameterType, ValidationRules};
use loom_core::dictionary::Dictionary;
use loom_core::error::LoomError;
use loom_core::floats::{FloatArithmetic, FloatBits};
use loom_core::interceptor::context::ExecutionContext;
use loom_core::interceptor::scope::ExecutionScope;
use loom_core::types::{EnumDef, LiteralValue, LoomValue, Position, Signature};
use loom_core::InputArg;

struct Floats;

impl FloatArithmetic for Floats {
    fn sum(&self, a: FloatBits, b: FloatBits) -> FloatBits {
        FloatBits { bits: (f64::from_bits(a.bits) + f64::from_bits(b.bits)).to_bits() }
    }
    fn difference(&self, a: FloatBits, b: FloatBits) -> FloatBits {
        FloatBits { bits: (f64::from_bits(a.bits) - f64::from_bits(b.bits)).to_bits() }
    }
    fn product(&self, a: FloatBits, b: FloatBits) -> FloatBits {
        FloatBits { bits: (f64::from_bits(a.bits) * f64::from_bits(b.bits)).to_bits() }
    }
    fn quotient(&self, a: FloatBits, b: FloatBits) -> FloatBits {
        FloatBits { bits: (f64::from_bits(a.bits) / f64::from_bits(b.bits)).to_bits() }
    }
    fn from_integer(&self, n: i64) -> FloatBits {
        FloatBits { bits: (n as f64).to_bits() }
    }
    fn render(&self, a: FloatBits) -> String {
        f64::from_bits(a.bits).to_string()
    }
}

fn string(s: &str) -> Expression {
    Expression::Literal(LiteralValue::String(s.to_string()))
}

fn number(n: i64) -> Expression {
    Expression::Literal(LiteralValue::Number(n))
}

fn positional(e: Expression) -> ArgDefinition {
    ArgDefinition::Positional(e)
}

fn named(name: &str, e: Expression) -> ArgDefinition {
    ArgDefinition::Named { name: name.to_string(), value: e }
}

fn parameter(name: &str, param_type: ParameterType) -> ParameterDefinition {
    ParameterDefinition::new(param_type, name)
}

fn optional(name: &str, param_type: ParameterType) -> ParameterDefinition {
    let mut p = parameter(name, param_type);
    p.required = false;
    p
}

fn varargs(name: &str, param_type: ParameterType) -> ParameterDefinition {
    let mut p = optional(name, param_type);
    p.varargs = true;
    p.allow_named_parameter = false;
    p
}

fn validation(message: &str) -> Result<(), LoomError> {
    Err(LoomError::validation(message))
}

fn bad_argument(directive: &str, message: &str) -> Result<(), LoomError> {
    Err(LoomError::parameter_validation(directive, message))
}

#[test]
fn arguments_are_positional_or_named_but_not_both() {
    assert_eq!(determine_argument_type(&vec![]), Ok(ArgumentType::Positional));
    assert_eq!(
        determine_argument_type(&vec![positional(number(1)), positional(number(2))]),
        Ok(ArgumentType::Positional)
    );
    assert_eq!(determine_argument_type(&vec![named("a", number(1))]), Ok(ArgumentType::Named));
    assert_eq!(
        determine_argument_type(&vec![named("a", number(1)), positional(number(2))]),
        Err(LoomError::validation(
            "Cannot mix 'positional' and 'named' arguments in the same directive call"
        ))
    );
}

#[test]
fn literals_fit_the_types_they_belong_to() {
    let float = LiteralValue::Float(FloatBits { bits: 1.5f64.to_bits() });
    assert!(fits(&LiteralValue::String("x".into()), &ParameterType::String));
    assert!(fits(&LiteralValue::Number(1), &ParameterType::Number));
    assert!(fits(&float, &ParameterType::Number));
    assert!(fits(&LiteralValue::Boolean(true), &ParameterType::Boolean));
    assert!(fits(&float, &ParameterType::Json));
    assert!(!fits(&LiteralValue::Number(1), &ParameterType::String));
    assert!(!fits(&LiteralValue::Number(1), &ParameterType::Any));
    let names = ParameterType::Enum(vec!["dev".into(), "prod".into()]);
    assert!(fits(&LiteralValue::String("prod".into()), &names));
    assert!(!fits(&LiteralValue::String("test".into()), &names));
    assert!(!fits(&LiteralValue::Number(1), &names));
    let numbers = ParameterType::Array(Box::new(ParameterType::Number));
    assert!(fits(&LiteralValue::Array(vec![LiteralValue::Number(1), float.clone()]), &numbers));
    assert!(fits(&LiteralValue::Array(vec![]), &numbers));
    assert!(!fits(
        &LiteralValue::Array(vec![LiteralValue::Number(1), LiteralValue::String("x".into())]),
        &numbers
    ));
    assert!(has_float(&LiteralValue::Array(vec![LiteralValue::Number(1), float])));
    assert!(!has_float(&LiteralValue::Array(vec![LiteralValue::Number(1)])));

    assert_eq!(validate_literal_type(&LiteralValue::Number(1), &ParameterType::Number, "n", "d"), Ok(()));
    assert_eq!(
        validate_literal_type(&LiteralValue::String("x".into()), &numbers, "n", "retry"),
        bad_argument("retry", "Parameter 'n' expects type Array(Number) but got String")
    );
}

#[test]
fn positional_arguments_are_counted_and_typed() {
    let parameters =
        vec![parameter("first", ParameterType::Number), optional("second", ParameterType::String)];
    let check = |args: Vec<ArgDefinition>| validate_positional_arguments(&args, &parameters, "retry");
    assert_eq!(check(vec![positional(number(1))]), Ok(()));
    assert_eq!(check(vec![positional(number(1)), positional(string("x"))]), Ok(()));
    assert_eq!(check(vec![]), Err(LoomError::parameter_mismatch("retry", 1, 0)));
    assert_eq!(
        check(vec![positional(number(1)), positional(string("x")), positional(number(3))]),
        Err(LoomError::parameter_mismatch("retry", 2, 3))
    );
    assert_eq!(
        check(vec![positional(string("x"))]),
        bad_argument("retry", "Parameter 'first' expects type Number but got String")
    );
    assert_eq!(check(vec![positional(Expression::Variable("v".into()))]), Ok(()));

    let mut odd = varargs("rest", ParameterType::Number);
    odd.allow_named_parameter = true;
    assert_eq!(
        validate_positional_arguments(&vec![], &vec![odd], "retry"),
        bad_argument("retry", "Parameter 'rest' can only be used as named parameter")
    );

    let with_rest = vec![parameter("first", ParameterType::String), varargs("rest", ParameterType::Number)];
    assert!(has_varargs_parameter(&with_rest));
    assert!(!has_varargs_parameter(&parameters));
    assert!(can_be_positional(&with_rest[0]));
    assert!(!can_be_positional(&with_rest[1]));
    let check = |args: Vec<ArgDefinition>| validate_positional_arguments(&args, &with_rest, "retry");
    assert_eq!(
        check(vec![positional(string("a")), positional(number(1)), positional(number(2))]),
        Ok(())
    );
    assert_eq!(
        check(vec![positional(string("a")), positional(number(1)), positional(string("b"))]),
        bad_argument("retry", "Parameter 'rest' expects type Number but got String")
    );
    assert_eq!(check(vec![positional(number(7)), positional(number(1))]), Ok(()));
    assert_eq!(
        validate_literal_argument_types(&vec![named("zzz", number(1))], &with_rest, "retry"),
        Ok(())
    );
    assert_eq!(
        validate_literal_argument_types(&vec![named("first", number(1))], &with_rest, "retry"),
        bad_argument("retry", "Parameter 'first' expects type String but got Number")
    );
}

#[test]
fn named_arguments_must_name_parameters_once() {
    let mut positional_only = parameter("fixed", ParameterType::Number);
    positional_only.allow_named_parameter = false;
    positional_only.required = false;
    let parameters = vec![
        parameter("first", ParameterType::Number),
        optional("second", ParameterType::String),
        positional_only,
        varargs("rest", ParameterType::Number),
    ];
    let check = |args: Vec<ArgDefinition>| validate_named_arguments(&args, &parameters, "retry");
    assert_eq!(check(vec![named("first", number(1))]), Ok(()));
    assert_eq!(check(vec![named("second", string("x")), named("first", number(1))]), Ok(()));
    assert_eq!(
        check(vec![named("third", number(1))]),
        Err(LoomError::definition_not_found(
            "third",
            vec!["first".into(), "second".into(), "fixed".into(), "rest".into()],
            Position::default()
        ))
    );
    assert_eq!(
        check(vec![named("first", number(1)), named("fixed", number(1))]),
        bad_argument("retry", "Parameter 'fixed' cannot be used as named parameter")
    );
    let mut nameable = varargs("rest", ParameterType::Number);
    nameable.allow_named_parameter = true;
    assert_eq!(
        validate_named_arguments(&vec![named("rest", number(1))], &vec![nameable], "retry"),
        bad_argument("retry", "Varargs parameter 'rest' cannot be used as named parameter")
    );
    assert_eq!(
        check(vec![named("first", number(1)), named("first", number(2))]),
        bad_argument("retry", "Parameter 'first' specified multiple times")
    );
    assert_eq!(
        check(vec![named("second", string("x"))]),
        bad_argument("retry", "Required parameter 'first' is missing")
    );
    assert_eq!(check(vec![]), bad_argument("retry", "Required parameter 'first' is missing"));

    assert_eq!(validate_arguments(&vec![named("first", number(1))], &parameters, "retry"), Ok(()));
    assert!(validate_arguments(&vec![named("first", number(1)), positional(number(1))], &parameters, "retry")
        .is_err());
}

#[test]
fn declared_parameters_are_checked_in_order() {
    assert_eq!(validate_parameter_definitions(&vec![], &Floats), Ok(()));
    assert_eq!(
        validate_parameter_definitions(&vec![
            parameter("a", ParameterType::Number),
            optional("b", ParameterType::String),
            varargs("rest", ParameterType::Number),
        ], &Floats),
        Ok(())
    );
    assert_eq!(
        validate_parameter_definitions(&vec![
            parameter("a", ParameterType::Number),
            parameter("b", ParameterType::Number),
            parameter("a", ParameterType::String),
        ], &Floats),
        validation("Duplicate parameter name: 'a'")
    );
    assert_eq!(
        validate_parameter_definitions(&vec![
            varargs("x", ParameterType::Number),
            varargs("y", ParameterType::Number),
        ], &Floats),
        validation("Only one parameter can be marked as varargs")
    );
    assert_eq!(
        validate_parameter_definitions(&vec![
            varargs("x", ParameterType::Number),
            optional("y", ParameterType::Number),
        ], &Floats),
        validation("Varargs parameter must be the last parameter")
    );
    let mut with_default = varargs("x", ParameterType::Number);
    with_default.default_value = Some(LoomValue::Empty);
    assert_eq!(
        validate_parameter_definitions(&vec![with_default], &Floats),
        validation("Varargs parameter 'x' cannot have a default value")
    );
    let mut required = varargs("x", ParameterType::Number);
    required.required = true;
    assert_eq!(
        validate_parameter_definitions(&vec![required], &Floats),
        validation("Varargs parameter 'x' cannot be marked as required")
    );
    assert_eq!(
        validate_parameter_definitions(&vec![
            optional("a", ParameterType::Number),
            parameter("b", ParameterType::Number),
        ], &Floats),
        validation(
            "Required parameter 'b' cannot come after optional parameters in positional context"
        )
    );
    let mut limited = parameter("n", ParameterType::Number);
    let mut rules = ValidationRules::none();
    rules.pattern = Some("^a".into());
    limited.validation_rules = Some(rules);
    assert_eq!(
        validate_parameter_definitions(&vec![parameter("a", ParameterType::String), limited], &Floats),
        validation("Parameter 'n': pattern validation can only be used with String type")
    );
    let mut inverted = parameter("n", ParameterType::Number);
    let mut rules = ValidationRules::none();
    rules.min_value = Some(FloatBits { bits: 10.0f64.to_bits() });
    rules.max_value = Some(FloatBits { bits: 0.5f64.to_bits() });
    inverted.validation_rules = Some(rules);
    assert_eq!(
        validate_parameter_definitions(&vec![parameter("a", ParameterType::String), inverted], &Floats),
        validation("Parameter 'n': min_value (10) cannot be greater than max_value (0.5)")
    );
}

#[test]
fn limits_must_suit_the_type_and_each_other() {
    let check = |change: &dyn Fn(&mut ValidationRules), t: ParameterType| {
        let mut rules = ValidationRules::none();
        change(&mut rules);
        validate_validation_rules(&rules, "p", &t, &Floats)
    };
    let bits = |x: f64| Some(FloatBits { bits: x.to_bits() });
    assert_eq!(check(&|_| {}, ParameterType::Boolean), Ok(()));
    assert_eq!(check(&|r| r.min_length = Some(1), ParameterType::String), Ok(()));
    assert_eq!(
        check(&|r| r.max_length = Some(1), ParameterType::Array(Box::new(ParameterType::Any))),
        Ok(())
    );
    assert_eq!(
        check(&|r| r.min_length = Some(1), ParameterType::Number),
        validation("Parameter 'p': min_length/max_length can only be used with String or Array types")
    );
    assert_eq!(
        check(&|r| r.max_value = bits(1.0), ParameterType::String),
        validation("Parameter 'p': min_value/max_value can only be used with Number type")
    );
    assert_eq!(
        check(&|r| r.pattern = Some("x".into()), ParameterType::Number),
        validation("Parameter 'p': pattern validation can only be used with String type")
    );
    assert_eq!(
        check(
            &|r| {
                r.min_length = Some(10);
                r.max_length = Some(2)
            },
            ParameterType::String
        ),
        validation("Parameter 'p': min_length (10) cannot be greater than max_length (2)")
    );
    assert_eq!(
        check(
            &|r| {
                r.min_length = Some(2);
                r.max_length = Some(2)
            },
            ParameterType::String
        ),
        Ok(())
    );
    assert_eq!(
        check(
            &|r| {
                r.min_value = bits(2.5);
                r.max_value = bits(-1.0)
            },
            ParameterType::Number
        ),
        validation("Parameter 'p': min_value (2.5) cannot be greater than max_value (-1)")
    );
    assert_eq!(
        check(
            &|r| {
                r.min_value = bits(-2.5);
                r.max_value = bits(1.0)
            },
            ParameterType::Number
        ),
        Ok(())
    );
}

struct Retry;

impl DirectiveDefinition for Retry {
    fn name(&self) -> String {
        "retry".to_string()
    }

    fn description(&self) -> String {
        "runs a block again when it fails".to_string()
    }

    fn scope(&self) -> Vec<DirectiveScope> {
        vec![DirectiveScope::Block]
    }

    fn parameters(&self) -> Vec<ParameterDefinition> {
        vec![parameter("times", ParameterType::Number)]
    }
}

impl FunctionDefinition for Retry {
    fn name(&self) -> String {
        "retry".to_string()
    }

    fn description(&self) -> String {
        "as a function".to_string()
    }

    fn parameters(&self) -> Vec<ParameterDefinition> {
        vec![]
    }

    fn parse_args(&self, call: &DirectiveCall) -> Result<Dictionary<LoomValue>, LoomError> {
        let mut values = Dictionary::new();
        values.insert("arguments".to_string(), LoomValue::Literal(LiteralValue::Number(call.args.len() as i64)));
        Ok(values)
    }
}

#[test]
fn a_directive_checks_its_calls_against_its_parameters() {
    assert_eq!(DirectiveDefinition::validate_parameters(&Retry, &vec![positional(number(3))]), Ok(()));
    assert_eq!(
        DirectiveDefinition::validate_parameters(&Retry, &vec![]),
        Err(LoomError::parameter_mismatch("retry", 1, 0))
    );
    assert!(!Retry.repeatable());
    assert!(Retry.conflicts_with().is_empty());
    assert_eq!(FunctionDefinition::validate_parameters(&Retry, &vec![positional(number(3))]), Ok(()));
    let call = DirectiveCall {
        name: "retry".to_string(),
        args: vec![positional(number(3)), positional(number(4))],
        position: Position::new(1, 1),
    };
    let read = Retry.parse_args(&call).unwrap();
    assert_eq!(read.get("arguments"), Some(&LoomValue::Literal(LiteralValue::Number(2))));
}

fn registry_with_enum() -> LoomContext {
    let mut variants = Dictionary::new();
    variants.insert("prod".to_string(), "production".to_string());
    variants.insert("dev".to_string(), "development".to_string());
    let mut module = Module::new();
    module.enums.insert(7, EnumDef { name: "Environment".to_string(), variants });
    let mut registry = LoomContext::new();
    assert!(registry.add_module(1, module));
    assert!(registry.index_enum("Environment", 1, 7));
    assert!(!registry.index_enum("Environment", 1, 7));
    assert!(!registry.index_enum("Other", 1, 8));
    registry
}

fn typed(name: &str, param_type: Option<&str>, default: Option<Expression>) -> loom_core::types::ParameterDefinition {
    loom_core::types::ParameterDefinition {
        name: name.to_string(),
        param_type: param_type.map(|t| t.to_string()),
        default_value: default,
        required: default_is_none(&param_type),
    }
}

fn default_is_none(t: &Option<&str>) -> bool {
    t.is_none()
}

#[test]
fn a_parameter_takes_the_value_of_its_argument() {
    let registry = registry_with_enum();
    let context = ExecutionContext::new(ExecutionScope::Command);
    let value = |p: &loom_core::types::ParameterDefinition, e: Option<&Expression>| {
        p.value_from_arg(e, &registry, &context, &Floats)
    };
    let sum = Expression::BinaryOp {
        left: Box::new(number(1)),
        operator: BinaryOperator::Add,
        right: Box::new(number(2)),
    };
    assert_eq!(
        value(&typed("n", Some("number"), None), Some(&sum)),
        Ok(LoomValue::Literal(LiteralValue::Number(3)))
    );
    assert_eq!(
        value(&typed("n", None, None), Some(&sum)),
        Ok(LoomValue::Literal(LiteralValue::String("3".into())))
    );
    assert_eq!(
        value(&typed("b", Some("bool"), None), Some(&sum)),
        Err(LoomError::conversion("Number", "bool", "3"))
    );
    assert_eq!(
        value(&typed("s", Some("string"), None), Some(&string("x"))),
        Ok(LoomValue::Literal(LiteralValue::String("x".into())))
    );
    assert_eq!(
        value(&typed("f", Some("float"), None), Some(&string("x"))),
        Err(LoomError::conversion("String", "float", "x"))
    );
    assert_eq!(
        value(&typed("e", Some("Environment"), None), Some(&string("prod"))),
        Ok(LoomValue::Literal(LiteralValue::String("production".into())))
    );
    assert_eq!(
        value(&typed("e", Some("Environment"), None), Some(&string("test"))),
        Err(LoomError::execution(
            "Parameter 'e' is of the enum 'Environment' and 'test' is none of its variants"
        ))
    );
    assert_eq!(
        value(&typed("e", Some("Colour"), None), Some(&string("red"))),
        Err(LoomError::execution("Enum 'Colour' not found"))
    );
    assert_eq!(
        value(&typed("flag", None, None), None),
        Ok(LoomValue::Literal(LiteralValue::Boolean(true)))
    );
    assert_eq!(
        value(&typed("flag", Some("bool"), None), None),
        Ok(LoomValue::Literal(LiteralValue::Boolean(true)))
    );
    assert_eq!(
        value(&typed("n", Some("number"), Some(number(9))), None),
        Ok(LoomValue::Literal(LiteralValue::Number(9)))
    );
    assert_eq!(
        value(&typed("n", Some("number"), None), None),
        Err(LoomError::execution("No default value for parameter n and no value provided"))
    );
    assert_eq!(
        typed("n", Some("number"), Some(number(9))).evaluate(&registry, &context, &Floats),
        ("n".to_string(), Some(LoomValue::Literal(LiteralValue::Number(9))))
    );
    assert_eq!(
        typed("n", None, Some(Expression::Variable("missing".into()))).evaluate(&registry, &context, &Floats),
        ("n".to_string(), None)
    );
    assert_eq!(registry.find_enum("Environment").unwrap().name, "Environment");
    let access = Expression::EnumAccess { enum_name: "Environment".into(), variant: "dev".into() };
    assert_eq!(
        access.evaluate(&registry, &context, None, &Floats),
        Ok(LoomValue::Literal(LiteralValue::String("development".into())))
    );
    let access = Expression::EnumAccess { enum_name: "Environment".into(), variant: "qa".into() };
    assert!(matches!(
        access.evaluate(&registry, &context, None, &Floats),
        Err(LoomError::UndefinedError { name, .. }) if name == "Environment::qa"
    ));
}

#[test]
fn a_signature_binds_arguments_by_place_and_by_name() {
    let registry = registry_with_enum();
    let context = ExecutionContext::new(ExecutionScope::Command);
    let signature = Signature {
        name: "deploy".into(),
        parameters: vec![
            typed("target", Some("string"), None),
            typed("count", Some("number"), Some(number(1))),
        ],
    };
    assert_eq!(
        signature.positional_arg_from_expression(&vec![string("eu")]),
        Ok(vec![InputArg::new("target".into(), Some(string("eu")))])
    );
    assert_eq!(signature.positional_arg_from_expression(&vec![]), Ok(vec![]));
    assert_eq!(
        signature.positional_arg_from_expression(&vec![string("a"), number(1), number(2)]),
        Err(LoomError::parameter_mismatch("deploy", 2, 3))
    );
    let args = vec![
        InputArg::new("count".into(), Some(number(4))),
        InputArg::new("unknown".into(), Some(number(5))),
        InputArg::new("target".into(), Some(string("eu"))),
    ];
    assert_eq!(
        signature.args_into_variable(&registry, &context, &args, &Floats),
        Ok(vec![
            ("count".to_string(), LoomValue::Literal(LiteralValue::Number(4))),
            ("target".to_string(), LoomValue::Literal(LiteralValue::String("eu".into()))),
        ])
    );
    let wrong = vec![InputArg::new("count".into(), Some(string("four")))];
    assert_eq!(
        signature.args_into_variable(&registry, &context, &wrong, &Floats),
        Err(LoomError::conversion("String", "integer", "four"))
    );

    let mut given = Dictionary::new();
    given.insert("target".to_string(), LoomValue::Literal(LiteralValue::String("us".into())));
    let settled = signature.evaluate_with_args(&given, &registry, &context, &Floats);
    assert_eq!(settled.len(), 2);
    assert_eq!(settled.get("target"), Some(&LoomValue::Literal(LiteralValue::String("us".into()))));
    assert_eq!(settled.get("count"), Some(&LoomValue::Literal(LiteralValue::Number(1))));
    let bare = Signature { name: "x".into(), parameters: vec![typed("p", Some("string"), None)] };
    assert_eq!(
        bare.evaluate_with_args(&Dictionary::new(), &registry, &context, &Floats).get("p"),
        Some(&LoomValue::Empty)
    );
}

#[test]
fn the_declaration_of_if_takes_one_condition_by_position() {
    let declared = loom_core::directives::IfDirectiveInterceptor;
    assert_eq!(DirectiveDefinition::name(&declared), "if");
    assert_eq!(declared.scope(), vec![DirectiveScope::Block]);
    let parameters = DirectiveDefinition::parameters(&declared);
    assert_eq!(parameters.len(), 1);
    assert_eq!(parameters[0].name, "condition");
    assert_eq!(parameters[0].param_type, ParameterType::Boolean);
    assert!(!parameters[0].allow_named_parameter);
    assert_eq!(validate_parameter_definitions(&parameters, &Floats), Ok(()));
    let yes = Expression::Literal(LiteralValue::Boolean(true));
    assert_eq!(DirectiveDefinition::validate_parameters(&declared, &vec![positional(yes.clone())]), Ok(()));
    assert_eq!(
        DirectiveDefinition::validate_parameters(&declared, &vec![positional(number(1))]),
        bad_argument("if", "Parameter 'condition' expects type Boolean but got Number")
    );
    assert_eq!(
        DirectiveDefinition::validate_parameters(&declared, &vec![named("condition", yes)]),
        bad_argument("if", "Parameter 'condition' cannot be used as named parameter")
    );
    assert_eq!(
        DirectiveDefinition::validate_parameters(&declared, &vec![]),
        Err(LoomError::parameter_mismatch("if", 1, 0))
    );
}

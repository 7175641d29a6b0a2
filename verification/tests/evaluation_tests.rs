use loom_core::ast::{BinaryOperator, Expression, InterpolationPart, UnaryOperator};
use loom_core::context::LoomContext;
use loom_core::error::{LoomError, UndefinedKind};
use loom_core::floats::{FloatArithmetic, FloatBits};
use loom_core::interceptor::context::ExecutionContext;
use loom_core::interceptor::scope::ExecutionScope;
use loom_core::types::{LiteralValue, LoomValue, Position};

struct Floats;

impl FloatArithmetic for Floats {
    fn sum(&self, a: FloatBits, b: FloatBits) -> FloatBits {
        FloatBits { bits: (f64::from_bits(a.bits) + f64::from_bits(b.bits)).to_bits() }
    }
    fn difference(&self, a: FloatBits, b: FloatBits) -> FloatBits {
        FloatBits { bits: (f64::from_bits(a.bits) - f64::from_bits(b.bits)).to_bits() }
    }
    fn product(&self, a: FloatBits, b: FloatBits) -> FloatBits {
        FloatBits { bits: (f64::from_bits(a.bits) * f64::from_bits(b.bits)).to_bits() }
    }
    fn quotient(&self, a: FloatBits, b: FloatBits) -> FloatBits {
        FloatBits { bits: (f64::from_bits(a.bits) / f64::from_bits(b.bits)).to_bits() }
    }
    fn from_integer(&self, n: i64) -> FloatBits {
        FloatBits { bits: (n as f64).to_bits() }
    }
    fn render(&self, a: FloatBits) -> String {
        f64::from_bits(a.bits).to_string()
    }
}

fn number(n: i64) -> Expression {
    Expression::Literal(LiteralValue::Number(n))
}

fn text(s: &str) -> Expression {
    Expression::Literal(LiteralValue::String(s.to_string()))
}

fn float(x: f64) -> Expression {
    Expression::Literal(LiteralValue::Float(FloatBits { bits: x.to_bits() }))
}

fn binary(left: Expression, operator: BinaryOperator, right: Expression) -> Expression {
    Expression::BinaryOp { left: Box::new(left), operator, right: Box::new(right) }
}

fn evaluate(e: &Expression) -> Result<LoomValue, LoomError> {
    let registry = LoomContext::new();
    let context = ExecutionContext::new(ExecutionScope::Command);
    e.evaluate(&registry, &context, None, &Floats)
}

#[test]
fn one_plus_two_is_three() {
    let r = evaluate(&binary(number(1), BinaryOperator::Add, number(2))).unwrap();
    assert_eq!(r, LoomValue::Literal(LiteralValue::Number(3)));
}

#[test]
fn division_by_zero_is_an_error() {
    let r = evaluate(&binary(number(1), BinaryOperator::Divide, number(0)));
    match r {
        Err(LoomError::ExpressionError { expression_type, message, position }) => {
            assert_eq!(expression_type, "division");
            assert_eq!(message, "Division by zero");
            assert_eq!(position.line, 1);
            assert_eq!(position.column, 1);
        }
        other => panic!("unexpected {:?}", other),
    }
}

#[test]
fn division_rounds_towards_zero() {
    let r = evaluate(&binary(number(-7), BinaryOperator::Divide, number(2))).unwrap();
    assert_eq!(r, LoomValue::Literal(LiteralValue::Number(-3)));
    let r = evaluate(&binary(number(7), BinaryOperator::Divide, number(-2))).unwrap();
    assert_eq!(r, LoomValue::Literal(LiteralValue::Number(-3)));
}

#[test]
fn strings_concatenate() {
    let r = evaluate(&binary(text("a"), BinaryOperator::Add, text("b"))).unwrap();
    assert_eq!(r, LoomValue::Literal(LiteralValue::String("ab".to_string())));
}

#[test]
fn index_out_of_bounds_is_an_error() {
    let array = Expression::Literal(LiteralValue::Array(vec![
        LiteralValue::Number(10),
        LiteralValue::Number(20),
        LiteralValue::Number(30),
    ]));
    let e = Expression::IndexAccess { object: Box::new(array), index: Box::new(number(5)) };
    match evaluate(&e) {
        Err(LoomError::ExecutionError { message, .. }) => {
            assert_eq!(message, "Array index 5 out of bounds (length: 3)");
        }
        other => panic!("unexpected {:?}", other),
    }
}

#[test]
fn index_in_bounds_gives_the_item() {
    let array = Expression::Literal(LiteralValue::Array(vec![
        LiteralValue::Number(10),
        LiteralValue::Number(20),
        LiteralValue::Number(30),
    ]));
    let e = Expression::IndexAccess { object: Box::new(array), index: Box::new(number(1)) };
    assert_eq!(evaluate(&e).unwrap(), LoomValue::Literal(LiteralValue::Number(20)));
}

#[test]
fn interpolation_renders_embedded_expressions() {
    let e = Expression::Interpolation {
        parts: vec![
            InterpolationPart::Text("x=".to_string()),
            InterpolationPart::Expression(binary(number(1), BinaryOperator::Add, number(1))),
        ],
    };
    assert_eq!(evaluate(&e).unwrap(), LoomValue::Literal(LiteralValue::String("x=2".to_string())));
}

#[test]
fn integer_overflow_is_an_error() {
    let r = evaluate(&binary(number(i64::MAX), BinaryOperator::Add, number(1)));
    match r {
        Err(LoomError::ExpressionError { expression_type, message, .. }) => {
            assert_eq!(expression_type, "arithmetic");
            assert_eq!(message, "Integer overflow");
        }
        other => panic!("unexpected {:?}", other),
    }
}

#[test]
fn undefined_variable_is_reported_at_the_position() {
    let registry = LoomContext::new();
    let context = ExecutionContext::new(ExecutionScope::Command);
    let e = Expression::Variable("missing".to_string());
    match e.evaluate(&registry, &context, Some(Position::new(4, 9)), &Floats) {
        Err(LoomError::UndefinedError { name, kind, position }) => {
            assert_eq!(name, "missing");
            assert_eq!(kind, UndefinedKind::Variable);
            assert_eq!(position.line, 4);
            assert_eq!(position.column, 9);
        }
        other => panic!("unexpected {:?}", other),
    }
}

#[test]
fn variable_gives_its_value() {
    let registry = LoomContext::new();
    let mut context = ExecutionContext::new(ExecutionScope::Command);
    context.variables.insert("n".to_string(), LoomValue::Literal(LiteralValue::Number(7)));
    let e = binary(Expression::Variable("n".to_string()), BinaryOperator::Multiply, number(6));
    assert_eq!(
        e.evaluate(&registry, &context, None, &Floats).unwrap(),
        LoomValue::Literal(LiteralValue::Number(42))
    );
}

#[test]
fn mismatched_operands_name_both_kinds() {
    let r = evaluate(&binary(text("a"), BinaryOperator::Add, number(1)));
    match r {
        Err(LoomError::ExpressionError { expression_type, message, .. }) => {
            assert_eq!(expression_type, "binary_operation");
            assert_eq!(message, "Operator Add not supported between String and Number");
        }
        other => panic!("unexpected {:?}", other),
    }
}

#[test]
fn equality_is_defined_for_all_pairs() {
    let r = evaluate(&binary(text("1"), BinaryOperator::Equal, number(1))).unwrap();
    assert_eq!(r, LoomValue::Literal(LiteralValue::Boolean(false)));
    let r = evaluate(&binary(number(1), BinaryOperator::NotEqual, number(2))).unwrap();
    assert_eq!(r, LoomValue::Literal(LiteralValue::Boolean(true)));
}

#[test]
fn string_operators() {
    let r = evaluate(&binary(text("workflow"), BinaryOperator::Contains, text("flow"))).unwrap();
    assert_eq!(r, LoomValue::Literal(LiteralValue::Boolean(true)));
    let r = evaluate(&binary(text("workflow"), BinaryOperator::StartsWith, text("flow"))).unwrap();
    assert_eq!(r, LoomValue::Literal(LiteralValue::Boolean(false)));
    let r = evaluate(&binary(text("workflow"), BinaryOperator::EndsWith, text("flow"))).unwrap();
    assert_eq!(r, LoomValue::Literal(LiteralValue::Boolean(true)));
    let r = evaluate(&binary(text("abc"), BinaryOperator::Less, text("abd"))).unwrap();
    assert_eq!(r, LoomValue::Literal(LiteralValue::Boolean(true)));
}

#[test]
fn unary_operators() {
    let e = Expression::UnaryOp { operator: UnaryOperator::Minus, operand: Box::new(number(5)) };
    assert_eq!(evaluate(&e).unwrap(), LoomValue::Literal(LiteralValue::Number(-5)));
    let e = Expression::UnaryOp {
        operator: UnaryOperator::Not,
        operand: Box::new(Expression::Literal(LiteralValue::Boolean(true))),
    };
    assert_eq!(evaluate(&e).unwrap(), LoomValue::Literal(LiteralValue::Boolean(false)));
    let e = Expression::UnaryOp { operator: UnaryOperator::Not, operand: Box::new(number(5)) };
    match evaluate(&e) {
        Err(LoomError::ExpressionError { expression_type, message, .. }) => {
            assert_eq!(expression_type, "unary_operation");
            assert_eq!(message, "Cannot apply Not to \"literal\"");
        }
        other => panic!("unexpected {:?}", other),
    }
}

#[test]
fn float_arithmetic_uses_the_supplied_operations() {
    let r = evaluate(&binary(float(1.5), BinaryOperator::Add, number(2))).unwrap();
    assert_eq!(r, LoomValue::Literal(LiteralValue::Float(FloatBits { bits: 3.5f64.to_bits() })));
    let r = evaluate(&binary(float(1.0), BinaryOperator::Divide, float(0.0)));
    assert!(matches!(r, Err(LoomError::ExpressionError { .. })));
    let r = evaluate(&binary(float(-0.0), BinaryOperator::Equal, float(0.0))).unwrap();
    assert_eq!(r, LoomValue::Literal(LiteralValue::Boolean(true)));
    let r = evaluate(&binary(float(f64::NAN), BinaryOperator::Equal, float(f64::NAN))).unwrap();
    assert_eq!(r, LoomValue::Literal(LiteralValue::Boolean(false)));
    let r = evaluate(&binary(float(-2.0), BinaryOperator::Less, float(1.0))).unwrap();
    assert_eq!(r, LoomValue::Literal(LiteralValue::Boolean(true)));
    let r = evaluate(&binary(float(-1.0), BinaryOperator::Less, float(-2.0))).unwrap();
    assert_eq!(r, LoomValue::Literal(LiteralValue::Boolean(false)));
}

#[test]
fn built_in_functions() {
    let registry = LoomContext::new();
    let mut context = ExecutionContext::new(ExecutionScope::Command);
    context.env_vars.insert("HOME".to_string(), "/home/loom".to_string());
    let call = |name: &str, args: Vec<Expression>| Expression::FunctionCall {
        name: name.to_string(),
        args,
    };
    let r = call("env", vec![text("HOME")]).evaluate(&registry, &context, None, &Floats).unwrap();
    assert_eq!(r, LoomValue::Literal(LiteralValue::String("/home/loom".to_string())));
    let r = call("env", vec![text("NOPE")]).evaluate(&registry, &context, None, &Floats).unwrap();
    assert_eq!(r, LoomValue::Empty);
    let r = call("concat", vec![text("a"), number(1), text("b")])
        .evaluate(&registry, &context, None, &Floats)
        .unwrap();
    assert_eq!(r, LoomValue::Literal(LiteralValue::String("a1b".to_string())));
    let r = call("default", vec![text(""), text("fallback")])
        .evaluate(&registry, &context, None, &Floats)
        .unwrap();
    assert_eq!(r, LoomValue::Literal(LiteralValue::String("fallback".to_string())));
    let r = call("nothing_like_it", vec![]).evaluate(&registry, &context, None, &Floats);
    match r {
        Err(LoomError::UndefinedError { name, kind, .. }) => {
            assert_eq!(name, "nothing_like_it");
            assert_eq!(kind, UndefinedKind::Function);
        }
        other => panic!("unexpected {:?}", other),
    }
}

#[test]
fn literals_render_as_text() {
    let array = LiteralValue::Array(vec![
        LiteralValue::Number(-12),
        LiteralValue::Boolean(true),
        LiteralValue::String("x".to_string()),
    ]);
    assert_eq!(array.stringify(&Floats), "[-12, true, x]");
    assert_eq!(LiteralValue::Number(i64::MIN).stringify(&Floats), "-9223372036854775808");
    assert_eq!(LiteralValue::Number(0).stringify(&Floats), "0");
}

#[test]
fn operators_can_be_applied_to_operands_directly() {
    let registry = LoomContext::new();
    let context = ExecutionContext::new(ExecutionScope::Command);
    let r = Expression::evaluate_binary_op(
        &number(6),
        &BinaryOperator::Subtract,
        &number(10),
        &registry,
        &context,
        None,
        &Floats,
    );
    assert_eq!(r, Ok(LoomValue::Literal(LiteralValue::Number(-4))));
    let r = Expression::evaluate_literal_binary_op(
        &LiteralValue::Boolean(true),
        &BinaryOperator::And,
        &LiteralValue::Boolean(false),
        None,
        &Floats,
    );
    assert_eq!(r, Ok(LoomValue::Literal(LiteralValue::Boolean(false))));
    let r = Expression::evaluate_literal_binary_op(
        &LiteralValue::Number(7),
        &BinaryOperator::Modulo,
        &LiteralValue::Number(2),
        Some(Position::new(2, 3)),
        &Floats,
    );
    match r {
        Err(LoomError::ExpressionError { message, position, .. }) => {
            assert_eq!(message, "Operator Modulo not supported between Number and Number");
            assert_eq!(position, Position::new(2, 3));
        }
        other => panic!("unexpected {:?}", other),
    }
    let mixed = Expression::evaluate_binary_op(
        &Expression::Variable("nothing".into()),
        &BinaryOperator::Add,
        &number(1),
        &registry,
        &context,
        None,
        &Floats,
    );
    assert!(matches!(mixed, Err(LoomError::UndefinedError { .. })));
    let mut with_empty = ExecutionContext::new(ExecutionScope::Command);
    with_empty.variables.insert("nothing".into(), LoomValue::Empty);
    let r = Expression::evaluate_binary_op(
        &Expression::Variable("nothing".into()),
        &BinaryOperator::Add,
        &number(1),
        &registry,
        &with_empty,
        None,
        &Floats,
    );
    match r {
        Err(LoomError::ExpressionError { message, .. }) => {
            assert_eq!(message, "Binary operation Add not supported between empty and literal")
        }
        other => panic!("unexpected {:?}", other),
    }
}

#[test]
fn stored_expressions_are_followed_to_a_limit() {
    let registry = LoomContext::new();
    let mut context = ExecutionContext::new(ExecutionScope::Command);
    context.variables.insert(
        "inner".into(),
        LoomValue::Expression(Box::new(binary(number(2), BinaryOperator::Multiply, number(21)))),
    );
    let e = Expression::Interpolation {
        parts: vec![
            InterpolationPart::Text("answer: ".into()),
            InterpolationPart::Expression(Expression::Variable("inner".into())),
        ],
    };
    assert_eq!(
        e.evaluate(&registry, &context, None, &Floats),
        Ok(LoomValue::Literal(LiteralValue::String("answer: 42".into())))
    );
    context.variables.insert(
        "knot".into(),
        LoomValue::Expression(Box::new(Expression::Variable("knot".into()))),
    );
    let value = LoomValue::Expression(Box::new(Expression::Variable("knot".into())));
    match value.stringify(&registry, &context, &Floats) {
        Err(LoomError::ExecutionError { message, .. }) => {
            assert_eq!(message, "Expression nesting too deep")
        }
        other => panic!("unexpected {:?}", other),
    }
    assert_eq!(LoomValue::Empty.stringify(&registry, &context, &Floats), Ok(String::new()));
}

#[test]
fn arithmetic_on_a_float_and_an_integer_gives_a_float_at_any_depth() {
    let inner = binary(float(2.5), BinaryOperator::Add, number(2));
    let r = evaluate(&binary(number(2), BinaryOperator::Multiply, inner)).unwrap();
    assert_eq!(r, LoomValue::Literal(LiteralValue::Float(FloatBits { bits: 9.0f64.to_bits() })));
    let r = evaluate(&binary(float(1.0), BinaryOperator::Divide, float(4.0))).unwrap();
    assert_eq!(r, LoomValue::Literal(LiteralValue::Float(FloatBits { bits: 0.25f64.to_bits() })));
    let r = evaluate(&binary(number(3), BinaryOperator::Subtract, float(0.5))).unwrap();
    assert_eq!(r, LoomValue::Literal(LiteralValue::Float(FloatBits { bits: 2.5f64.to_bits() })));
    let r = Expression::evaluate_literal_binary_op(
        &LiteralValue::Number(1),
        &BinaryOperator::Add,
        &LiteralValue::Float(FloatBits { bits: 0.5f64.to_bits() }),
        None,
        &Floats,
    )
    .unwrap();
    assert_eq!(r, LoomValue::Literal(LiteralValue::Float(FloatBits { bits: 1.5f64.to_bits() })));
}

//! What an expression evaluates to.
//!
//! The meaning of an expression is the spec function [`eval`], over the views
//! of the expression and of what it is evaluated against. A result that
//! depends on rounding arithmetic or on how a floating-point number is
//! rendered is left open there ([`Outcome::Rounded`]): the executable
//! evaluator takes it from the caller's [`FloatArithmetic`].

use vstd::prelude::*;
use vstd::string::*;
use crate::ast::{BinaryOperator, ExprView, Expression, InterpolationPart, PartView, UnaryOperator};
use crate::context::LoomContext;
use crate::error::{ErrorView, LoomError, UndefinedKind};
use crate::floats::{FloatArithmetic, FloatBits};
use crate::interceptor::context::ExecutionContext;
use crate::text::{
    contains,
    ends_with,
    int_text,
    int_to_text,
    is_infix,
    is_prefix,
    is_suffix,
    less_than,
    lex_less,
    nat_text,
    starts_with,
    text_eq,
    unsigned_to_text,
};
use crate::types::{
    clone_optional_position, literal_views, optional_position, position_or_default,
    position_or_start, LiteralValue, LiteralView, LoomValue, Position, PositionView, ValueView,
};

verus! {

/// How many times a stored expression may lead to another stored expression
/// while a value is turned into text.
pub const DEFERRED_LIMIT: usize = 64;

/// What evaluation reads: the variables and the environment of the run, and
/// the enums of the registry, each enum as the map from its variants to their
/// texts.
pub struct EvalScope {
    pub variables: Map<Seq<char>, ValueView>,
    pub env: Map<Seq<char>, Seq<char>>,
    pub enums: Map<Seq<char>, Map<Seq<char>, Seq<char>>>,
}

/// The scope that a registry and a run make up.
pub open spec fn scope_of(registry: &LoomContext, context: &ExecutionContext) -> EvalScope {
    EvalScope {
        variables: context.variables@.map_values(|v: LoomValue| v@),
        env: context.env_vars@.map_values(|t: String| t@),
        enums: Map::new(
            |name: Seq<char>| registry.enum_named(name) is Some,
            |name: Seq<char>| registry.enum_named(name)->0.variants@.map_values(|t: String| t@),
        ),
    }
}

/// The outcome of an evaluation.
pub enum Outcome<T> {
    /// It succeeds with this value.
    Value(T),
    /// It fails with this error.
    Failure(ErrorView),
    /// It depends on floating-point rounding or rendering.
    Rounded,
}

/// Whether a result is what the outcome says; any result agrees with `Rounded`.
pub open spec fn value_agrees(r: Result<LoomValue, LoomError>, o: Outcome<ValueView>) -> bool {
    match o {
        Outcome::Value(v) => r is Ok && r->Ok_0@ == v,
        Outcome::Failure(e) => r is Err && r->Err_0@ == e,
        Outcome::Rounded => true,
    }
}

/// Whether a text result is what the outcome says.
pub open spec fn text_agrees(r: Result<String, LoomError>, o: Outcome<Seq<char>>) -> bool {
    match o {
        Outcome::Value(v) => r is Ok && r->Ok_0@ == v,
        Outcome::Failure(e) => r is Err && r->Err_0@ == e,
        Outcome::Rounded => true,
    }
}

/// A name of the given kind that nothing defines, at `pos` or at the start.
pub open spec fn undefined_at(name: Seq<char>, kind: UndefinedKind, pos: Option<PositionView>) -> ErrorView {
    ErrorView::UndefinedError { name, kind, position: position_or_start(pos) }
}

/// An expression error of the given kind, at `pos` or at the start.
pub open spec fn expression_error(kind: Seq<char>, message: Seq<char>, pos: Option<PositionView>) -> ErrorView {
    ErrorView::ExpressionError { expression_type: kind, message, position: position_or_start(pos) }
}

/// An execution error at `pos`.
pub open spec fn execution_error(message: Seq<char>, pos: Option<PositionView>) -> ErrorView {
    ErrorView::ExecutionError { message, position: pos, cause: None }
}

/// The quotient rounded towards zero.
pub open spec fn truncated_quotient(x: int, d: int) -> int {
    if x == 0 {
        0
    } else if x > 0 && d > 0 {
        x / d
    } else if x < 0 && d < 0 {
        (x * -1) / (d * -1)
    } else if x < 0 {
        ((x * -1) / d) * -1
    } else {
        (x / (d * -1)) * -1
    }
}

/// A number, if it fits in 64 bits; an overflow error otherwise.
pub open spec fn number_or_overflow(n: int, pos: Option<PositionView>) -> Outcome<ValueView> {
    if i64::MIN <= n <= i64::MAX {
        Outcome::Value(ValueView::Literal(LiteralView::Number(n)))
    } else {
        Outcome::Failure(expression_error("arithmetic"@, "Integer overflow"@, pos))
    }
}

/// The error for an operator that the two kinds of literal do not support.
pub open spec fn unsupported_operands(
    l: LiteralView,
    op: BinaryOperator,
    r: LiteralView,
    pos: Option<PositionView>,
) -> ErrorView {
    expression_error(
        "binary_operation"@,
        "Operator "@ + op.label() + " not supported between "@ + l.kind_name() + " and "@
            + r.kind_name(),
        pos,
    )
}

/// A boolean as a value.
pub open spec fn truth(b: bool) -> Outcome<ValueView> {
    Outcome::Value(ValueView::Literal(LiteralView::Boolean(b)))
}

/// A binary operator applied to two literals.
pub open spec fn binary_literal(
    l: LiteralView,
    op: BinaryOperator,
    r: LiteralView,
    pos: Option<PositionView>,
) -> Outcome<ValueView> {
    let unsupported = Outcome::Failure(unsupported_operands(l, op, r, pos));
    match op {
        BinaryOperator::Add => match (l, r) {
            (LiteralView::Number(a), LiteralView::Number(b)) => number_or_overflow(a + b, pos),
            (LiteralView::Float(_), LiteralView::Float(_)) => Outcome::Rounded,
            (LiteralView::Number(_), LiteralView::Float(_)) => Outcome::Rounded,
            (LiteralView::Float(_), LiteralView::Number(_)) => Outcome::Rounded,
            (LiteralView::String(a), LiteralView::String(b)) => Outcome::Value(
                ValueView::Literal(LiteralView::String(a + b)),
            ),
            _ => unsupported,
        },
        BinaryOperator::Subtract => match (l, r) {
            (LiteralView::Number(a), LiteralView::Number(b)) => number_or_overflow(a - b, pos),
            (LiteralView::Float(_), LiteralView::Float(_)) => Outcome::Rounded,
            (LiteralView::Number(_), LiteralView::Float(_)) => Outcome::Rounded,
            (LiteralView::Float(_), LiteralView::Number(_)) => Outcome::Rounded,
            _ => unsupported,
        },
        BinaryOperator::Multiply => match (l, r) {
            (LiteralView::Number(a), LiteralView::Number(b)) => number_or_overflow(a * b, pos),
            (LiteralView::Float(_), LiteralView::Float(_)) => Outcome::Rounded,
            (LiteralView::Number(_), LiteralView::Float(_)) => Outcome::Rounded,
            (LiteralView::Float(_), LiteralView::Number(_)) => Outcome::Rounded,
            _ => unsupported,
        },
        BinaryOperator::Divide => match (l, r) {
            (LiteralView::Number(a), LiteralView::Number(b)) => if b == 0 {
                Outcome::Failure(expression_error("division"@, "Division by zero"@, pos))
            } else {
                number_or_overflow(truncated_quotient(a, b), pos)
            },
            (LiteralView::Float(_), LiteralView::Float(b)) => if b.zero() {
                Outcome::Failure(expression_error("division"@, "Division by zero"@, pos))
            } else {
                Outcome::Rounded
            },
            _ => unsupported,
        },
        BinaryOperator::Equal => truth(l.same(r)),
        BinaryOperator::NotEqual => truth(!l.same(r)),
        BinaryOperator::Less => match (l, r) {
            (LiteralView::Number(a), LiteralView::Number(b)) => truth(a < b),
            (LiteralView::Float(a), LiteralView::Float(b)) => truth(a.below(b)),
            (LiteralView::String(a), LiteralView::String(b)) => truth(lex_less(a, b)),
            _ => unsupported,
        },
        BinaryOperator::Contains => match (l, r) {
            (LiteralView::String(a), LiteralView::String(b)) => truth(is_infix(b, a)),
            _ => unsupported,
        },
        BinaryOperator::StartsWith => match (l, r) {
            (LiteralView::String(a), LiteralView::String(b)) => truth(is_prefix(b, a)),
            _ => unsupported,
        },
        BinaryOperator::EndsWith => match (l, r) {
            (LiteralView::String(a), LiteralView::String(b)) => truth(is_suffix(b, a)),
            _ => unsupported,
        },
        BinaryOperator::And => match (l, r) {
            (LiteralView::Boolean(a), LiteralView::Boolean(b)) => truth(a && b),
            _ => unsupported,
        },
        BinaryOperator::Or => match (l, r) {
            (LiteralView::Boolean(a), LiteralView::Boolean(b)) => truth(a || b),
            _ => unsupported,
        },
        _ => unsupported,
    }
}

/// A binary operator applied to two values: both must be literals.
pub open spec fn binary_value(
    l: ValueView,
    op: BinaryOperator,
    r: ValueView,
    pos: Option<PositionView>,
) -> Outcome<ValueView> {
    match (l, r) {
        (ValueView::Literal(a), ValueView::Literal(b)) => binary_literal(a, op, b, pos),
        _ => Outcome::Failure(
            expression_error(
                "binary_operation"@,
                "Binary operation "@ + op.label() + " not supported between "@ + l.type_label()
                    + " and "@ + r.type_label(),
                pos,
            ),
        ),
    }
}

/// A unary operator applied to a value.
pub open spec fn unary_value(op: UnaryOperator, v: ValueView, pos: Option<PositionView>) -> Outcome<
    ValueView,
> {
    match (op, v) {
        (UnaryOperator::Not, ValueView::Literal(LiteralView::Boolean(b))) => truth(!b),
        (UnaryOperator::Minus, ValueView::Literal(LiteralView::Number(n))) => number_or_overflow(
            -n,
            pos,
        ),
        (UnaryOperator::Minus, ValueView::Literal(LiteralView::Float(x))) => Outcome::Value(
            ValueView::Literal(LiteralView::Float(x.opposite())),
        ),
        _ => Outcome::Failure(
            expression_error(
                "unary_operation"@,
                "Cannot apply "@ + op.label() + " to \""@ + v.type_label() + "\""@,
                pos,
            ),
        ),
    }
}

/// The item of an array at an index.
pub open spec fn index_value(object: ValueView, index: ValueView, pos: Option<PositionView>) -> Outcome<
    ValueView,
> {
    match (object, index) {
        (
            ValueView::Literal(LiteralView::Array(items)),
            ValueView::Literal(LiteralView::Number(i)),
        ) => if 0 <= i < items.len() {
            Outcome::Value(ValueView::Literal(items[i]))
        } else {
            Outcome::Failure(
                execution_error(
                    "Array index "@ + int_text(i) + " out of bounds (length: "@ + nat_text(
                        items.len(),
                    ) + ")"@,
                    pos,
                ),
            )
        },
        _ => Outcome::Failure(
            expression_error(
                "index_access"@,
                "Cannot index \""@ + object.type_label() + "\" with \""@ + index.type_label()
                    + "\""@,
                pos,
            ),
        ),
    }
}

/// The text that a variant of an enum stands for.
pub open spec fn enum_value(
    enum_name: Seq<char>,
    variant: Seq<char>,
    s: EvalScope,
    pos: Option<PositionView>,
) -> Outcome<ValueView> {
    if !s.enums.contains_key(enum_name) {
        Outcome::Failure(undefined_at(enum_name, UndefinedKind::Enum, pos))
    } else if !s.enums[enum_name].contains_key(variant) {
        Outcome::Failure(undefined_at(enum_name + "::"@ + variant, UndefinedKind::EnumVariant, pos))
    } else {
        Outcome::Value(ValueView::Literal(LiteralView::String(s.enums[enum_name][variant])))
    }
}

/// The built-in `env`: the value of an environment variable, or nothing.
pub open spec fn env_value(args: Seq<ValueView>, s: EvalScope, pos: Option<PositionView>) -> Outcome<
    ValueView,
> {
    if args.len() != 1 {
        Outcome::Failure(execution_error("env() requires exactly one argument"@, pos))
    } else {
        match args[0] {
            ValueView::Literal(LiteralView::String(name)) => if s.env.contains_key(name) {
                Outcome::Value(ValueView::Literal(LiteralView::String(s.env[name])))
            } else {
                Outcome::Value(ValueView::Empty)
            },
            _ => Outcome::Failure(execution_error("env() argument must be a string"@, pos)),
        }
    }
}

/// Whether the built-in `default` passes a value over.
pub open spec fn is_blank(v: ValueView) -> bool {
    v == ValueView::Empty || v == ValueView::Literal(LiteralView::String(Seq::empty()))
}

/// The built-in `default`: the first of the first `n` arguments that is
/// neither nothing nor the empty string.
pub open spec fn default_value(args: Seq<ValueView>, n: nat) -> ValueView
    decreases n,
{
    if n == 0 || n > args.len() {
        ValueView::Empty
    } else {
        let before = default_value(args, (n - 1) as nat);
        if before != ValueView::Empty {
            before
        } else if is_blank(args[n - 1]) {
            ValueView::Empty
        } else {
            args[n - 1]
        }
    }
}

/// The error for a stored expression that leads to too many others.
pub open spec fn too_deep() -> ErrorView {
    execution_error("Expression nesting too deep"@, None)
}

/// What an expression evaluates to. Of an expression that rounds,
/// [`surely_float`] says when a float comes out all the same.
pub open spec fn eval(e: ExprView, s: EvalScope, pos: Option<PositionView>, fuel: nat) -> Outcome<
    ValueView,
>
    decreases fuel, 3int, e,
{
    match e {
        ExprView::Literal(l) => Outcome::Value(ValueView::Literal(l)),
        ExprView::Variable(name) => if s.variables.contains_key(name) {
            Outcome::Value(s.variables[name])
        } else {
            Outcome::Failure(undefined_at(name, UndefinedKind::Variable, pos))
        },
        ExprView::FunctionCall { name, args } => match eval_list(args, args.len(), s, pos, fuel) {
            Outcome::Value(values) => call_builtin(name, values, s, pos, fuel),
            Outcome::Failure(x) => Outcome::Failure(x),
            Outcome::Rounded => Outcome::Rounded,
        },
        ExprView::IndexAccess { object, index } => match eval(*object, s, pos, fuel) {
            Outcome::Value(o) => match eval(*index, s, pos, fuel) {
                Outcome::Value(i) => index_value(o, i, pos),
                Outcome::Failure(x) => Outcome::Failure(x),
                Outcome::Rounded => Outcome::Rounded,
            },
            Outcome::Failure(x) => Outcome::Failure(x),
            Outcome::Rounded => Outcome::Rounded,
        },
        ExprView::BinaryOp { left, operator, right } => match eval(*left, s, pos, fuel) {
            Outcome::Value(l) => match eval(*right, s, pos, fuel) {
                Outcome::Value(r) => binary_value(l, operator, r, pos),
                Outcome::Failure(x) => Outcome::Failure(x),
                Outcome::Rounded => Outcome::Rounded,
            },
            Outcome::Failure(x) => Outcome::Failure(x),
            Outcome::Rounded => Outcome::Rounded,
        },
        ExprView::UnaryOp { operator, operand } => match eval(*operand, s, pos, fuel) {
            Outcome::Value(v) => unary_value(operator, v, pos),
            Outcome::Failure(x) => Outcome::Failure(x),
            Outcome::Rounded => Outcome::Rounded,
        },
        ExprView::Interpolation { parts } => match eval_parts(parts, parts.len(), s, pos, fuel) {
            Outcome::Value(t) => Outcome::Value(ValueView::Literal(LiteralView::String(t))),
            Outcome::Failure(x) => Outcome::Failure(x),
            Outcome::Rounded => Outcome::Rounded,
        },
        ExprView::EnumAccess { enum_name, variant } => enum_value(enum_name, variant, s, pos),
    }
}

/// Whether a value is a float.
pub open spec fn is_float(v: ValueView) -> bool {
    v is Literal && v->Literal_0 is Float
}

/// Whether a value is an integer.
pub open spec fn is_number(o: Outcome<ValueView>) -> bool {
    o is Value && o->Value_0 is Literal && o->Value_0->Literal_0 is Number
}

/// Whether an expression evaluates to a float whatever the rounding of the
/// arithmetic may be:
///
/// - one whose value is known and is a float;
/// - a sum, a difference or a product of two such expressions, or of one
///   such expression and one whose value is known and is an integer;
/// - a quotient of such an expression and one whose value is known and is a
///   float other than zero;
/// - the opposite of such an expression.
pub open spec fn surely_float(e: ExprView, s: EvalScope, pos: Option<PositionView>, fuel: nat) -> bool
    decreases e,
{
    match eval(e, s, pos, fuel) {
        Outcome::Value(v) => is_float(v),
        Outcome::Failure(_) => false,
        Outcome::Rounded => match e {
            ExprView::BinaryOp { left, operator, right } => match operator {
                BinaryOperator::Add | BinaryOperator::Subtract | BinaryOperator::Multiply => {
                    ||| surely_float(*left, s, pos, fuel) && surely_float(*right, s, pos, fuel)
                    ||| surely_float(*left, s, pos, fuel) && is_number(eval(*right, s, pos, fuel))
                    ||| is_number(eval(*left, s, pos, fuel)) && surely_float(*right, s, pos, fuel)
                },
                BinaryOperator::Divide => surely_float(*left, s, pos, fuel) && match eval(
                    *right,
                    s,
                    pos,
                    fuel,
                ) {
                    Outcome::Value(ValueView::Literal(LiteralView::Float(b))) => !b.zero(),
                    _ => false,
                },
                _ => false,
            },
            ExprView::UnaryOp { operator, operand } => operator is Minus && surely_float(
                *operand,
                s,
                pos,
                fuel,
            ),
            _ => false,
        },
    }
}

/// Whether `x` is the float that `floats` takes the literal `l` for: a float
/// is taken as it is, an integer as `floats` converts it.
pub open spec fn taken_as_float<F: FloatArithmetic>(floats: &F, l: LiteralView, x: FloatBits) -> bool {
    match l {
        LiteralView::Float(a) => x == a,
        LiteralView::Number(n) => i64::MIN <= n <= i64::MAX && call_ensures(
            F::from_integer,
            (floats, n as i64),
            x,
        ),
        _ => false,
    }
}

/// Whether `c` is what `floats` answered for the operator `op` on the
/// literals `l` and `r`, each taken as a float.
pub open spec fn rounded_by<F: FloatArithmetic>(
    floats: &F,
    l: LiteralView,
    op: BinaryOperator,
    r: LiteralView,
    c: FloatBits,
) -> bool {
    exists|a: FloatBits, b: FloatBits|
        #[trigger] taken_as_float(floats, l, a) && #[trigger] taken_as_float(floats, r, b)
            && match op {
            BinaryOperator::Add => call_ensures(F::sum, (floats, a, b), c),
            BinaryOperator::Subtract => call_ensures(F::difference, (floats, a, b), c),
            BinaryOperator::Multiply => call_ensures(F::product, (floats, a, b), c),
            BinaryOperator::Divide => call_ensures(F::quotient, (floats, a, b), c),
            _ => false,
        }
}

/// What is owed where a binary operator on two literals rounds: a float,
/// the one that `floats` answered.
pub open spec fn rounding_agrees<F: FloatArithmetic>(
    r: Result<LoomValue, LoomError>,
    floats: &F,
    left: LiteralView,
    op: BinaryOperator,
    right: LiteralView,
) -> bool {
    r is Ok && is_float(r->Ok_0@) && rounded_by(
        floats,
        left,
        op,
        right,
        r->Ok_0@->Literal_0->Float_0,
    )
}

/// The values of the first `n` expressions of a list, from left to right, up
/// to the first that does not evaluate to a value.
pub open spec fn eval_list(
    es: Seq<ExprView>,
    n: nat,
    s: EvalScope,
    pos: Option<PositionView>,
    fuel: nat,
) -> Outcome<Seq<ValueView>>
    decreases fuel, 3int, es, n,
{
    if n == 0 || n > es.len() {
        Outcome::Value(Seq::empty())
    } else {
        match eval_list(es, (n - 1) as nat, s, pos, fuel) {
            Outcome::Value(values) => match eval(es[n - 1], s, pos, fuel) {
                Outcome::Value(v) => Outcome::Value(values.push(v)),
                Outcome::Failure(x) => Outcome::Failure(x),
                Outcome::Rounded => Outcome::Rounded,
            },
            Outcome::Failure(x) => Outcome::Failure(x),
            Outcome::Rounded => Outcome::Rounded,
        }
    }
}

/// The text of the first `n` pieces of an interpolated string.
pub open spec fn eval_parts(
    parts: Seq<PartView>,
    n: nat,
    s: EvalScope,
    pos: Option<PositionView>,
    fuel: nat,
) -> Outcome<Seq<char>>
    decreases fuel, 3int, parts, n,
{
    if n == 0 || n > parts.len() {
        Outcome::Value(Seq::empty())
    } else {
        match eval_parts(parts, (n - 1) as nat, s, pos, fuel) {
            Outcome::Value(before) => match parts[n - 1] {
                PartView::Text(t) => Outcome::Value(before + t),
                PartView::Expression(e) => match eval(e, s, pos, fuel) {
                    Outcome::Value(v) => match value_text(v, s, fuel) {
                        Outcome::Value(t) => Outcome::Value(before + t),
                        Outcome::Failure(x) => Outcome::Failure(x),
                        Outcome::Rounded => Outcome::Rounded,
                    },
                    Outcome::Failure(x) => Outcome::Failure(x),
                    Outcome::Rounded => Outcome::Rounded,
                },
            },
            Outcome::Failure(x) => Outcome::Failure(x),
            Outcome::Rounded => Outcome::Rounded,
        }
    }
}

/// The text of a value: that of a literal, nothing for the empty value, and
/// for a stored expression the text of what it evaluates to.
pub open spec fn value_text(v: ValueView, s: EvalScope, fuel: nat) -> Outcome<Seq<char>>
    decreases fuel, 0int,
{
    match v {
        ValueView::Literal(l) => if l.has_float() {
            Outcome::Rounded
        } else {
            Outcome::Value(l.text())
        },
        ValueView::Empty => Outcome::Value(Seq::empty()),
        ValueView::Expression(e) => if fuel == 0 {
            Outcome::Failure(too_deep())
        } else {
            match eval(e, s, None, (fuel - 1) as nat) {
                Outcome::Value(inner) => value_text(inner, s, (fuel - 1) as nat),
                Outcome::Failure(x) => Outcome::Failure(x),
                Outcome::Rounded => Outcome::Rounded,
            }
        },
    }
}

/// The texts of the first `n` values, one after another.
pub open spec fn concat_values(values: Seq<ValueView>, n: nat, s: EvalScope, fuel: nat) -> Outcome<
    Seq<char>,
>
    decreases fuel, 1int, n,
{
    if n == 0 || n > values.len() {
        Outcome::Value(Seq::empty())
    } else {
        match concat_values(values, (n - 1) as nat, s, fuel) {
            Outcome::Value(before) => match value_text(values[n - 1], s, fuel) {
                Outcome::Value(t) => Outcome::Value(before + t),
                Outcome::Failure(x) => Outcome::Failure(x),
                Outcome::Rounded => Outcome::Rounded,
            },
            Outcome::Failure(x) => Outcome::Failure(x),
            Outcome::Rounded => Outcome::Rounded,
        }
    }
}

/// A call of a function on evaluated arguments: `env`, `concat` and
/// `default` are built in, any other name is undefined.
pub open spec fn call_builtin(
    name: Seq<char>,
    args: Seq<ValueView>,
    s: EvalScope,
    pos: Option<PositionView>,
    fuel: nat,
) -> Outcome<ValueView>
    decreases fuel, 2int,
{
    if name == "env"@ {
        env_value(args, s, pos)
    } else if name == "concat"@ {
        match concat_values(args, args.len(), s, fuel) {
            Outcome::Value(t) => Outcome::Value(ValueView::Literal(LiteralView::String(t))),
            Outcome::Failure(x) => Outcome::Failure(x),
            Outcome::Rounded => Outcome::Rounded,
        }
    } else if name == "default"@ {
        Outcome::Value(default_value(args, args.len()))
    } else {
        Outcome::Failure(undefined_at(name, UndefinedKind::Function, pos))
    }
}

/// Once the first `k` expressions do not all evaluate to values, no longer
/// prefix does.
pub proof fn eval_list_stops(
    es: Seq<ExprView>,
    k: nat,
    n: nat,
    s: EvalScope,
    pos: Option<PositionView>,
    fuel: nat,
)
    requires
        k <= n <= es.len(),
        !(eval_list(es, k, s, pos, fuel) is Value),
    ensures
        eval_list(es, n, s, pos, fuel) == eval_list(es, k, s, pos, fuel),
    decreases n,
{
    if k < n {
        eval_list_stops(es, k, (n - 1) as nat, s, pos, fuel);
    }
}

/// Once the first `k` pieces do not all have a text, no longer prefix does.
pub proof fn eval_parts_stops(
    parts: Seq<PartView>,
    k: nat,
    n: nat,
    s: EvalScope,
    pos: Option<PositionView>,
    fuel: nat,
)
    requires
        k <= n <= parts.len(),
        !(eval_parts(parts, k, s, pos, fuel) is Value),
    ensures
        eval_parts(parts, n, s, pos, fuel) == eval_parts(parts, k, s, pos, fuel),
    decreases n,
{
    if k < n {
        eval_parts_stops(parts, k, (n - 1) as nat, s, pos, fuel);
    }
}

/// Once the first `k` values do not all have a text, no longer prefix does.
pub proof fn concat_values_stops(values: Seq<ValueView>, k: nat, n: nat, s: EvalScope, fuel: nat)
    requires
        k <= n <= values.len(),
        !(concat_values(values, k, s, fuel) is Value),
    ensures
        concat_values(values, n, s, fuel) == concat_values(values, k, s, fuel),
    decreases n,
{
    if k < n {
        concat_values_stops(values, k, (n - 1) as nat, s, fuel);
    }
}

/// The views of a list of values.
pub open spec fn value_views(v: Seq<LoomValue>) -> Seq<ValueView> {
    Seq::new(v.len(), |i: int| v[i]@)
}

fn undefined_failure(name: &str, kind: UndefinedKind, position: &Option<Position>) -> (r: LoomError)
    ensures
        r@ == undefined_at(name@, kind, optional_position(*position)),
{
    LoomError::undefined(name, kind, position_or_default(clone_optional_position(position)))
}

fn expression_failure(kind: &str, message: &str, position: &Option<Position>) -> (r: LoomError)
    ensures
        r@ == expression_error(kind@, message@, optional_position(*position)),
{
    LoomError::expression(kind, message, position_or_default(clone_optional_position(position)))
}

fn execution_failure(message: &str, position: &Option<Position>) -> (r: LoomError)
    ensures
        r@ == execution_error(message@, optional_position(*position)),
{
    LoomError::ExecutionError {
        message: String::from_str(message),
        position: clone_optional_position(position),
        cause: None,
    }
}

fn unsupported_failure(
    left: &LiteralValue,
    operator: &BinaryOperator,
    right: &LiteralValue,
    position: &Option<Position>,
) -> (r: LoomError)
    ensures
        r@ == unsupported_operands(left@, *operator, right@, optional_position(*position)),
{
    let mut message = String::from_str("Operator ");
    message.append(operator.to_text().as_str());
    message.append(" not supported between ");
    message.append(left.kind_name().as_str());
    message.append(" and ");
    message.append(right.kind_name().as_str());
    expression_failure("binary_operation", message.as_str(), position)
}

fn number_result(n: Option<i64>, position: &Option<Position>, Ghost(exact): Ghost<int>) -> (r: Result<
    LoomValue,
    LoomError,
>)
    requires
        match n {
            Some(v) => v == exact,
            None => !(i64::MIN <= exact <= i64::MAX),
        },
    ensures
        value_agrees(r, number_or_overflow(exact, optional_position(*position))),
{
    match n {
        Some(v) => Ok(LoomValue::Literal(LiteralValue::Number(v))),
        None => Err(expression_failure("arithmetic", "Integer overflow", position)),
    }
}

fn boolean_value(b: bool) -> (r: Result<LoomValue, LoomError>)
    ensures
        value_agrees(r, truth(b)),
{
    Ok(LoomValue::Literal(LiteralValue::Boolean(b)))
}

fn float_value(x: FloatBits) -> (r: Result<LoomValue, LoomError>)
    ensures
        r is Ok,
        r->Ok_0@ == ValueView::Literal(LiteralView::Float(x)),
{
    Ok(LoomValue::Literal(LiteralValue::Float(x)))
}

impl Expression {
    /// Evaluates the expression against the registry and the state of the
    /// run. An error points at `position` where one is given.
    pub fn evaluate<F: FloatArithmetic>(
        &self,
        loom_context: &LoomContext,
        context: &ExecutionContext,
        position: Option<Position>,
        floats: &F,
    ) -> (r: Result<LoomValue, LoomError>)
        ensures
            value_agrees(
                r,
                eval(
                    self@,
                    scope_of(loom_context, context),
                    optional_position(position),
                    DEFERRED_LIMIT as nat,
                ),
            ),
            surely_float(
                self@,
                scope_of(loom_context, context),
                optional_position(position),
                DEFERRED_LIMIT as nat,
            ) ==> r is Ok && is_float(r->Ok_0@),
    {
        self.evaluate_within(loom_context, context, &position, floats, DEFERRED_LIMIT)
    }

    /// Evaluates the expression; a stored expression met while a value is
    /// turned into text may lead to at most `depth` further ones.
    pub fn evaluate_within<F: FloatArithmetic>(
        &self,
        loom_context: &LoomContext,
        context: &ExecutionContext,
        position: &Option<Position>,
        floats: &F,
        depth: usize,
    ) -> (r: Result<LoomValue, LoomError>)
        ensures
            value_agrees(
                r,
                eval(
                    self@,
                    scope_of(loom_context, context),
                    optional_position(*position),
                    depth as nat,
                ),
            ),
            surely_float(
                self@,
                scope_of(loom_context, context),
                optional_position(*position),
                depth as nat,
            ) ==> r is Ok && is_float(r->Ok_0@),
        decreases depth, 3int, self,
    {
        let ghost scope = scope_of(loom_context, context);
        let ghost pos = optional_position(*position);
        match self {
            Expression::Literal(l) => Ok(LoomValue::Literal(l.clone())),
            Expression::Variable(name) => {
                match context.get_variable(name.as_str()) {
                    Some(v) => Ok(v),
                    None => Err(
                        undefined_failure(name.as_str(), UndefinedKind::Variable, position),
                    ),
                }
            },
            Expression::FunctionCall { name, args } => {
                let values = match evaluate_list(args, loom_context, context, position, floats, depth) {
                    Ok(v) => v,
                    Err(e) => {
                        return Err(e);
                    },
                };
                call_function(name.as_str(), values, loom_context, context, position, floats, depth)
            },
            Expression::IndexAccess { object, index } => {
                let object_value = match object.evaluate_within(
                    loom_context,
                    context,
                    position,
                    floats,
                    depth,
                ) {
                    Ok(v) => v,
                    Err(e) => {
                        return Err(e);
                    },
                };
                let index_value = match index.evaluate_within(
                    loom_context,
                    context,
                    position,
                    floats,
                    depth,
                ) {
                    Ok(v) => v,
                    Err(e) => {
                        return Err(e);
                    },
                };
                index_into(&object_value, &index_value, position)
            },
            Expression::BinaryOp { left, operator, right } => {
                let left_value = match left.evaluate_within(
                    loom_context,
                    context,
                    position,
                    floats,
                    depth,
                ) {
                    Ok(v) => v,
                    Err(e) => {
                        return Err(e);
                    },
                };
                let right_value = match right.evaluate_within(
                    loom_context,
                    context,
                    position,
                    floats,
                    depth,
                ) {
                    Ok(v) => v,
                    Err(e) => {
                        return Err(e);
                    },
                };
                combine_binary(&left_value, operator, &right_value, position, floats)
            },
            Expression::UnaryOp { operator, operand } => {
                let value = match operand.evaluate_within(
                    loom_context,
                    context,
                    position,
                    floats,
                    depth,
                ) {
                    Ok(v) => v,
                    Err(e) => {
                        return Err(e);
                    },
                };
                apply_unary(operator, &value, position)
            },
            Expression::EnumAccess { enum_name, variant } => {
                match loom_context.find_enum(enum_name.as_str()) {
                    None => Err(
                        undefined_failure(enum_name.as_str(), UndefinedKind::Enum, position),
                    ),
                    Some(definition) => {
                        match definition.variants.get(variant.as_str()) {
                            Some(text) => Ok(
                                LoomValue::Literal(LiteralValue::String(text.clone())),
                            ),
                            None => {
                                let mut qualified = enum_name.clone();
                                qualified.append("::");
                                qualified.append(variant.as_str());
                                Err(
                                    undefined_failure(
                                        qualified.as_str(),
                                        UndefinedKind::EnumVariant,
                                        position,
                                    ),
                                )
                            },
                        }
                    },
                }
            },
            Expression::Interpolation { parts } => {
                match evaluate_parts(parts, loom_context, context, position, floats, depth) {
                    Ok(text) => Ok(LoomValue::Literal(LiteralValue::String(text))),
                    Err(e) => Err(e),
                }
            },
        }
    }

    /// Evaluates both operands, the left one first, and applies the operator.
    pub fn evaluate_binary_op<F: FloatArithmetic>(
        left: &Expression,
        operator: &BinaryOperator,
        right: &Expression,
        loom_context: &LoomContext,
        context: &ExecutionContext,
        position: Option<Position>,
        floats: &F,
    ) -> (r: Result<LoomValue, LoomError>)
        ensures
            value_agrees(
                r,
                eval(
                    ExprView::BinaryOp {
                        left: Box::new(left@),
                        operator: *operator,
                        right: Box::new(right@),
                    },
                    scope_of(loom_context, context),
                    optional_position(position),
                    DEFERRED_LIMIT as nat,
                ),
            ),
            surely_float(
                ExprView::BinaryOp {
                    left: Box::new(left@),
                    operator: *operator,
                    right: Box::new(right@),
                },
                scope_of(loom_context, context),
                optional_position(position),
                DEFERRED_LIMIT as nat,
            ) ==> r is Ok && is_float(r->Ok_0@),
    {
        let left_value = match left.evaluate_within(
            loom_context,
            context,
            &position,
            floats,
            DEFERRED_LIMIT,
        ) {
            Ok(v) => v,
            Err(e) => {
                return Err(e);
            },
        };
        let right_value = match right.evaluate_within(
            loom_context,
            context,
            &position,
            floats,
            DEFERRED_LIMIT,
        ) {
            Ok(v) => v,
            Err(e) => {
                return Err(e);
            },
        };
        combine_binary(&left_value, operator, &right_value, &position, floats)
    }

    /// Applies a binary operator to two literals.
    pub fn evaluate_literal_binary_op<F: FloatArithmetic>(
        left: &LiteralValue,
        operator: &BinaryOperator,
        right: &LiteralValue,
        position: Option<Position>,
        floats: &F,
    ) -> (r: Result<LoomValue, LoomError>)
        ensures
            value_agrees(r, binary_literal(left@, *operator, right@, optional_position(position))),
            binary_literal(left@, *operator, right@, optional_position(position)) is Rounded
                ==> rounding_agrees(r, floats, left@, *operator, right@),
    {
        literal_binary(left, operator, right, &position, floats)
    }
}

fn combine_binary<F: FloatArithmetic>(
    left: &LoomValue,
    operator: &BinaryOperator,
    right: &LoomValue,
    position: &Option<Position>,
    floats: &F,
) -> (r: Result<LoomValue, LoomError>)
    ensures
        value_agrees(r, binary_value(left@, *operator, right@, optional_position(*position))),
        binary_value(left@, *operator, right@, optional_position(*position)) is Rounded
            ==> rounding_agrees(r, floats, left@->Literal_0, *operator, right@->Literal_0),
{
    match (left, right) {
        (LoomValue::Literal(a), LoomValue::Literal(b)) => {
            literal_binary(a, operator, b, position, floats)
        },
        _ => {
            let mut message = String::from_str("Binary operation ");
            message.append(operator.to_text().as_str());
            message.append(" not supported between ");
            message.append(left.type_label());
            message.append(" and ");
            message.append(right.type_label());
            Err(expression_failure("binary_operation", message.as_str(), position))
        },
    }
}

/// The literal `l` as a float: a float as it is, an integer converted.
fn as_float<F: FloatArithmetic>(l: &LiteralValue, floats: &F) -> (x: FloatBits)
    requires
        l@ is Float || l@ is Number,
    ensures
        taken_as_float(floats, l@, x),
{
    match l {
        LiteralValue::Float(a) => *a,
        LiteralValue::Number(n) => floats.from_integer(*n),
        _ => FloatBits::from_bits(0),
    }
}

/// An arithmetic operator on two literals of which one at least is a float:
/// both are taken as floats and `floats` answers.
fn rounded<F: FloatArithmetic>(
    left: &LiteralValue,
    operator: &BinaryOperator,
    right: &LiteralValue,
    floats: &F,
) -> (r: Result<LoomValue, LoomError>)
    requires
        left@ is Float || left@ is Number,
        right@ is Float || right@ is Number,
        *operator is Add || *operator is Subtract || *operator is Multiply || *operator is Divide,
    ensures
        rounding_agrees(r, floats, left@, *operator, right@),
{
    let a = as_float(left, floats);
    let b = as_float(right, floats);
    let c = match operator {
        BinaryOperator::Add => floats.sum(a, b),
        BinaryOperator::Subtract => floats.difference(a, b),
        BinaryOperator::Multiply => floats.product(a, b),
        _ => floats.quotient(a, b),
    };
    float_value(c)
}

fn literal_binary<F: FloatArithmetic>(
    left: &LiteralValue,
    operator: &BinaryOperator,
    right: &LiteralValue,
    position: &Option<Position>,
    floats: &F,
) -> (r: Result<LoomValue, LoomError>)
    ensures
        value_agrees(r, binary_literal(left@, *operator, right@, optional_position(*position))),
        binary_literal(left@, *operator, right@, optional_position(*position)) is Rounded
            ==> rounding_agrees(r, floats, left@, *operator, right@),
{
    match operator {
        BinaryOperator::Add => match (left, right) {
            (LiteralValue::Number(a), LiteralValue::Number(b)) => number_result(
                a.checked_add(*b),
                position,
                Ghost(*a + *b),
            ),
            (LiteralValue::Float(_), LiteralValue::Float(_)) => rounded(left, operator, right, floats),
            (LiteralValue::Number(_), LiteralValue::Float(_)) => rounded(left, operator, right, floats),
            (LiteralValue::Float(_), LiteralValue::Number(_)) => rounded(left, operator, right, floats),
            (LiteralValue::String(a), LiteralValue::String(b)) => {
                let mut text = a.clone();
                text.append(b.as_str());
                Ok(LoomValue::Literal(LiteralValue::String(text)))
            },
            _ => Err(unsupported_failure(left, operator, right, position)),
        },
        BinaryOperator::Subtract => match (left, right) {
            (LiteralValue::Number(a), LiteralValue::Number(b)) => number_result(
                a.checked_sub(*b),
                position,
                Ghost(*a - *b),
            ),
            (LiteralValue::Float(_), LiteralValue::Float(_)) => rounded(left, operator, right, floats),
            (LiteralValue::Number(_), LiteralValue::Float(_)) => rounded(left, operator, right, floats),
            (LiteralValue::Float(_), LiteralValue::Number(_)) => rounded(left, operator, right, floats),
            _ => Err(unsupported_failure(left, operator, right, position)),
        },
        BinaryOperator::Multiply => match (left, right) {
            (LiteralValue::Number(a), LiteralValue::Number(b)) => number_result(
                a.checked_mul(*b),
                position,
                Ghost(*a * *b),
            ),
            (LiteralValue::Float(_), LiteralValue::Float(_)) => rounded(left, operator, right, floats),
            (LiteralValue::Number(_), LiteralValue::Float(_)) => rounded(left, operator, right, floats),
            (LiteralValue::Float(_), LiteralValue::Number(_)) => rounded(left, operator, right, floats),
            _ => Err(unsupported_failure(left, operator, right, position)),
        },
        BinaryOperator::Divide => match (left, right) {
            (LiteralValue::Number(a), LiteralValue::Number(b)) => {
                if *b == 0 {
                    Err(expression_failure("division", "Division by zero", position))
                } else {
                    number_result(
                        a.checked_div(*b),
                        position,
                        Ghost(truncated_quotient(*a as int, *b as int)),
                    )
                }
            },
            (LiteralValue::Float(_), LiteralValue::Float(b)) => {
                if b.is_zero() {
                    Err(expression_failure("division", "Division by zero", position))
                } else {
                    rounded(left, operator, right, floats)
                }
            },
            _ => Err(unsupported_failure(left, operator, right, position)),
        },
        BinaryOperator::Equal => boolean_value(left.equals(right)),
        BinaryOperator::NotEqual => boolean_value(!left.equals(right)),
        BinaryOperator::Less => match (left, right) {
            (LiteralValue::Number(a), LiteralValue::Number(b)) => boolean_value(*a < *b),
            (LiteralValue::Float(a), LiteralValue::Float(b)) => boolean_value(a.less_than(*b)),
            (LiteralValue::String(a), LiteralValue::String(b)) => boolean_value(
                less_than(a.as_str(), b.as_str()),
            ),
            _ => Err(unsupported_failure(left, operator, right, position)),
        },
        BinaryOperator::Contains => match (left, right) {
            (LiteralValue::String(a), LiteralValue::String(b)) => boolean_value(
                contains(a.as_str(), b.as_str()),
            ),
            _ => Err(unsupported_failure(left, operator, right, position)),
        },
        BinaryOperator::StartsWith => match (left, right) {
            (LiteralValue::String(a), LiteralValue::String(b)) => boolean_value(
                starts_with(a.as_str(), b.as_str()),
            ),
            _ => Err(unsupported_failure(left, operator, right, position)),
        },
        BinaryOperator::EndsWith => match (left, right) {
            (LiteralValue::String(a), LiteralValue::String(b)) => boolean_value(
                ends_with(a.as_str(), b.as_str()),
            ),
            _ => Err(unsupported_failure(left, operator, right, position)),
        },
        BinaryOperator::And => match (left, right) {
            (LiteralValue::Boolean(a), LiteralValue::Boolean(b)) => boolean_value(*a && *b),
            _ => Err(unsupported_failure(left, operator, right, position)),
        },
        BinaryOperator::Or => match (left, right) {
            (LiteralValue::Boolean(a), LiteralValue::Boolean(b)) => boolean_value(*a || *b),
            _ => Err(unsupported_failure(left, operator, right, position)),
        },
        _ => Err(unsupported_failure(left, operator, right, position)),
    }
}

fn apply_unary(operator: &UnaryOperator, value: &LoomValue, position: &Option<Position>) -> (r: Result<
    LoomValue,
    LoomError,
>)
    ensures
        value_agrees(r, unary_value(*operator, value@, optional_position(*position))),
{
    match (operator, value) {
        (UnaryOperator::Not, LoomValue::Literal(LiteralValue::Boolean(b))) => boolean_value(!*b),
        (UnaryOperator::Minus, LoomValue::Literal(LiteralValue::Number(n))) => {
            let zero: i64 = 0;
            number_result(zero.checked_sub(*n), position, Ghost(-*n))
        },
        (UnaryOperator::Minus, LoomValue::Literal(LiteralValue::Float(x))) => float_value(
            x.negated(),
        ),
        _ => {
            let mut message = String::from_str("Cannot apply ");
            message.append(operator.to_text().as_str());
            message.append(" to \"");
            message.append(value.type_label());
            message.append("\"");
            Err(expression_failure("unary_operation", message.as_str(), position))
        },
    }
}

fn index_into(object: &LoomValue, index: &LoomValue, position: &Option<Position>) -> (r: Result<
    LoomValue,
    LoomError,
>)
    ensures
        value_agrees(r, index_value(object@, index@, optional_position(*position))),
{
    match (object, index) {
        (
            LoomValue::Literal(LiteralValue::Array(items)),
            LoomValue::Literal(LiteralValue::Number(i)),
        ) => {
            if 0 <= *i && (*i as u64) < (items.len() as u64) {
                assert(literal_views(items@)[*i as int] == items@[*i as int]@);
                Ok(LoomValue::Literal(items[*i as usize].clone()))
            } else {
                let mut message = String::from_str("Array index ");
                message.append(int_to_text(*i).as_str());
                message.append(" out of bounds (length: ");
                message.append(unsigned_to_text(items.len() as u64).as_str());
                message.append(")");
                Err(execution_failure(message.as_str(), position))
            }
        },
        _ => {
            let mut message = String::from_str("Cannot index \"");
            message.append(object.type_label());
            message.append("\" with \"");
            message.append(index.type_label());
            message.append("\"");
            Err(expression_failure("index_access", message.as_str(), position))
        },
    }
}

/// Evaluates the expressions of a list from left to right and stops at the
/// first that fails.
pub fn evaluate_list<F: FloatArithmetic>(
    es: &Vec<Expression>,
    loom_context: &LoomContext,
    context: &ExecutionContext,
    position: &Option<Position>,
    floats: &F,
    depth: usize,
) -> (r: Result<Vec<LoomValue>, LoomError>)
    ensures
        match eval_list(
            crate::ast::expr_views(es@),
            es@.len(),
            scope_of(loom_context, context),
            optional_position(*position),
            depth as nat,
        ) {
            Outcome::Value(values) => r is Ok && value_views(r->Ok_0@) == values,
            Outcome::Failure(e) => r is Err && r->Err_0@ == e,
            Outcome::Rounded => true,
        },
    decreases depth, 3int, es,
{
    let ghost scope = scope_of(loom_context, context);
    let ghost pos = optional_position(*position);
    let ghost all = crate::ast::expr_views(es@);
    let ghost fuel = depth as nat;
    let mut out: Vec<LoomValue> = Vec::new();
    let mut i: usize = 0;
    while i < es.len()
        invariant
            i <= es.len(),
            all == crate::ast::expr_views(es@),
            scope == scope_of(loom_context, context),
            pos == optional_position(*position),
            fuel == depth as nat,
            match eval_list(all, i as nat, scope, pos, fuel) {
                Outcome::Value(values) => value_views(out@) == values,
                Outcome::Failure(_) => false,
                Outcome::Rounded => true,
            },
        decreases es.len() - i,
    {
        assert(all[i as int] == es@[i as int]@);
        match es[i].evaluate_within(loom_context, context, position, floats, depth) {
            Ok(v) => {
                proof {
                    let ghost before = out@;
                    assert(value_views(before.push(v)) =~= value_views(before).push(v@));
                }
                out.push(v);
            },
            Err(e) => {
                proof {
                    if !(eval_list(all, (i + 1) as nat, scope, pos, fuel) is Value) {
                        eval_list_stops(all, (i + 1) as nat, es@.len(), scope, pos, fuel);
                    }
                }
                return Err(e);
            },
        }
        proof {
            if !(eval_list(all, (i + 1) as nat, scope, pos, fuel) is Value) {
                assert(eval_list(all, (i + 1) as nat, scope, pos, fuel) is Rounded);
            }
        }
        i += 1;
    }
    proof {
        assert(value_views(Seq::<LoomValue>::empty()) =~= Seq::<ValueView>::empty());
    }
    Ok(out)
}

/// The text of an interpolated string: the pieces from left to right, each
/// expression evaluated and turned into text.
fn evaluate_parts<F: FloatArithmetic>(
    parts: &Vec<InterpolationPart>,
    loom_context: &LoomContext,
    context: &ExecutionContext,
    position: &Option<Position>,
    floats: &F,
    depth: usize,
) -> (r: Result<String, LoomError>)
    ensures
        text_agrees(
            r,
            eval_parts(
                crate::ast::part_views(parts@),
                parts@.len(),
                scope_of(loom_context, context),
                optional_position(*position),
                depth as nat,
            ),
        ),
    decreases depth, 3int, parts,
{
    let ghost scope = scope_of(loom_context, context);
    let ghost pos = optional_position(*position);
    let ghost all = crate::ast::part_views(parts@);
    let ghost fuel = depth as nat;
    let mut out = String::new();
    let mut i: usize = 0;
    while i < parts.len()
        invariant
            i <= parts.len(),
            all == crate::ast::part_views(parts@),
            scope == scope_of(loom_context, context),
            pos == optional_position(*position),
            fuel == depth as nat,
            match eval_parts(all, i as nat, scope, pos, fuel) {
                Outcome::Value(t) => out@ == t,
                Outcome::Failure(_) => false,
                Outcome::Rounded => true,
            },
        decreases parts.len() - i,
    {
        assert(all[i as int] == parts@[i as int]@);
        match &parts[i] {
            InterpolationPart::Text(t) => {
                out.append(t.as_str());
            },
            InterpolationPart::Expression(e) => {
                let value = match e.evaluate_within(loom_context, context, position, floats, depth) {
                    Ok(v) => v,
                    Err(x) => {
                        proof {
                            if !(eval_parts(all, (i + 1) as nat, scope, pos, fuel) is Value) {
                                eval_parts_stops(all, (i + 1) as nat, parts@.len(), scope, pos, fuel);
                            }
                        }
                        return Err(x);
                    },
                };
                match value.stringify_within(loom_context, context, floats, depth) {
                    Ok(t) => {
                        out.append(t.as_str());
                    },
                    Err(x) => {
                        proof {
                            if !(eval_parts(all, (i + 1) as nat, scope, pos, fuel) is Value) {
                                eval_parts_stops(all, (i + 1) as nat, parts@.len(), scope, pos, fuel);
                            }
                        }
                        return Err(x);
                    },
                }
            },
        }
        i += 1;
    }
    Ok(out)
}

impl LoomValue {
    /// The text of the value: that of a literal, nothing for the empty value,
    /// and for a stored expression the text of what it evaluates to.
    pub fn stringify<F: FloatArithmetic>(
        &self,
        loom_context: &LoomContext,
        context: &ExecutionContext,
        floats: &F,
    ) -> (r: Result<String, LoomError>)
        ensures
            text_agrees(
                r,
                value_text(self@, scope_of(loom_context, context), DEFERRED_LIMIT as nat),
            ),
            self@ is Literal ==> r is Ok,
            is_float(self@) ==> call_ensures(
                F::render,
                (floats, self@->Literal_0->Float_0),
                r->Ok_0,
            ),
    {
        self.stringify_within(loom_context, context, floats, DEFERRED_LIMIT)
    }

    /// The text of the value, following at most `depth` stored expressions.
    pub fn stringify_within<F: FloatArithmetic>(
        &self,
        loom_context: &LoomContext,
        context: &ExecutionContext,
        floats: &F,
        depth: usize,
    ) -> (r: Result<String, LoomError>)
        ensures
            text_agrees(r, value_text(self@, scope_of(loom_context, context), depth as nat)),
            self@ is Literal ==> r is Ok,
            is_float(self@) ==> call_ensures(
                F::render,
                (floats, self@->Literal_0->Float_0),
                r->Ok_0,
            ),
        decreases depth, 0int,
    {
        match self {
            LoomValue::Literal(l) => Ok(l.stringify(floats)),
            LoomValue::Empty => Ok(String::new()),
            LoomValue::Expression(e) => {
                if depth == 0 {
                    return Err(execution_failure("Expression nesting too deep", &None));
                }
                let inner = match e.evaluate_within(loom_context, context, &None, floats, depth - 1) {
                    Ok(v) => v,
                    Err(x) => {
                        return Err(x);
                    },
                };
                inner.stringify_within(loom_context, context, floats, depth - 1)
            },
        }
    }
}

/// The texts of the values one after another.
fn concat_all<F: FloatArithmetic>(
    values: &Vec<LoomValue>,
    loom_context: &LoomContext,
    context: &ExecutionContext,
    floats: &F,
    depth: usize,
) -> (r: Result<String, LoomError>)
    ensures
        text_agrees(
            r,
            concat_values(
                value_views(values@),
                values@.len(),
                scope_of(loom_context, context),
                depth as nat,
            ),
        ),
    decreases depth, 1int,
{
    let ghost scope = scope_of(loom_context, context);
    let ghost all = value_views(values@);
    let ghost fuel = depth as nat;
    let mut out = String::new();
    let mut i: usize = 0;
    while i < values.len()
        invariant
            i <= values.len(),
            all == value_views(values@),
            scope == scope_of(loom_context, context),
            fuel == depth as nat,
            match concat_values(all, i as nat, scope, fuel) {
                Outcome::Value(t) => out@ == t,
                Outcome::Failure(_) => false,
                Outcome::Rounded => true,
            },
        decreases values.len() - i,
    {
        match values[i].stringify_within(loom_context, context, floats, depth) {
            Ok(t) => {
                out.append(t.as_str());
            },
            Err(x) => {
                proof {
                    if !(concat_values(all, (i + 1) as nat, scope, fuel) is Value) {
                        concat_values_stops(all, (i + 1) as nat, values@.len(), scope, fuel);
                    }
                }
                return Err(x);
            },
        }
        i += 1;
    }
    Ok(out)
}

/// The first value that is neither nothing nor the empty string.
fn first_present(values: Vec<LoomValue>) -> (r: LoomValue)
    ensures
        r@ == default_value(value_views(values@), values@.len()),
{
    let ghost all = value_views(values@);
    let mut i: usize = 0;
    while i < values.len()
        invariant
            i <= values.len(),
            all == value_views(values@),
            default_value(all, i as nat) == ValueView::Empty,
        decreases values.len() - i,
    {
        proof {
            reveal_strlit("");
            assert(""@ =~= Seq::<char>::empty());
            assert(all[i as int] == values@[i as int]@);
        }
        let blank = match &values[i] {
            LoomValue::Empty => true,
            LoomValue::Literal(LiteralValue::String(t)) => text_eq(t.as_str(), ""),
            _ => false,
        };
        assert(blank == is_blank(all[i as int]));
        if !blank {
            proof {
                assert(default_value(all, (i + 1) as nat) == all[i as int]);
                default_value_settles(all, (i + 1) as nat, values@.len());
            }
            return values[i].clone();
        }
        i += 1;
    }
    LoomValue::Empty
}

/// Once `default` has found a value among the first `k` arguments, it keeps it.
pub proof fn default_value_settles(args: Seq<ValueView>, k: nat, n: nat)
    requires
        k <= n <= args.len(),
        default_value(args, k) != ValueView::Empty,
    ensures
        default_value(args, n) == default_value(args, k),
    decreases n,
{
    if k < n {
        default_value_settles(args, k, (n - 1) as nat);
    }
}

/// Calls a function on evaluated arguments.
fn call_function<F: FloatArithmetic>(
    name: &str,
    values: Vec<LoomValue>,
    loom_context: &LoomContext,
    context: &ExecutionContext,
    position: &Option<Position>,
    floats: &F,
    depth: usize,
) -> (r: Result<LoomValue, LoomError>)
    ensures
        value_agrees(
            r,
            call_builtin(
                name@,
                value_views(values@),
                scope_of(loom_context, context),
                optional_position(*position),
                depth as nat,
            ),
        ),
    decreases depth, 2int,
{
    if text_eq(name, "env") {
        if values.len() != 1 {
            return Err(execution_failure("env() requires exactly one argument", position));
        }
        match &values[0] {
            LoomValue::Literal(LiteralValue::String(variable)) => {
                match context.env_vars.get(variable.as_str()) {
                    Some(text) => Ok(LoomValue::Literal(LiteralValue::String(text.clone()))),
                    None => Ok(LoomValue::Empty),
                }
            },
            _ => Err(execution_failure("env() argument must be a string", position)),
        }
    } else if text_eq(name, "concat") {
        match concat_all(&values, loom_context, context, floats, depth) {
            Ok(text) => Ok(LoomValue::Literal(LiteralValue::String(text))),
            Err(e) => Err(e),
        }
    } else if text_eq(name, "default") {
        Ok(first_present(values))
    } else {
        loom_context.call_function(
            name,
            values,
            position_or_default(clone_optional_position(position)),
        )
    }
}

} // verus!

//! Binding the arguments of a call to the parameters of a signature.

use vstd::prelude::*;
use vstd::string::*;
use crate::ast::{ExprView, Expression};
use crate::context::LoomContext;
use crate::dictionary::{view_map, Dictionary};
use crate::error::{ErrorView, LoomError};
use crate::evaluation::{
    eval,
    scope_of,
    value_agrees,
    value_text,
    EvalScope,
    Outcome,
    DEFERRED_LIMIT,
};
use crate::floats::{FloatArithmetic, FloatBits};
use crate::interceptor::context::ExecutionContext;
use crate::text::text_eq;
use crate::types::{
    any_float,
    literal_views,
    LiteralValue,
    LiteralView,
    LoomValue,
    ParameterDefinition,
    ParameterView,
    Signature,
    SignatureView,
    ValueView,
};
use crate::views::views;
use crate::{InputArg, InputArgView};

verus! {

/// Whether a list of literals holds a floating-point number.
fn holds_float(items: &Vec<LiteralValue>) -> (r: bool)
    ensures
        r == any_float(literal_views(items@)),
    decreases items,
{
    let mut i: usize = 0;
    while i < items.len()
        invariant
            i <= items.len(),
            forall|j: int| 0 <= j < i ==> !(#[trigger] literal_views(items@)[j]).has_float(),
        decreases items.len() - i,
    {
        if has_float(&items[i]) {
            assert(literal_views(items@)[i as int].has_float());
            return true;
        }
        i += 1;
    }
    false
}

/// Whether a floating-point number occurs in the literal.
pub fn has_float(literal: &LiteralValue) -> (r: bool)
    ensures
        r == literal@.has_float(),
    decreases literal,
{
    match literal {
        LiteralValue::Float(_) => true,
        LiteralValue::Array(items) => holds_float(items),
        _ => false,
    }
}

/// The kind of a value, as messages give it: the variant of a literal,
/// `expression` or `empty`.
pub open spec fn kind_label(v: ValueView) -> Seq<char> {
    match v {
        ValueView::Literal(l) => l.kind_name(),
        ValueView::Expression(_) => "expression"@,
        ValueView::Empty => "empty"@,
    }
}

/// A value as messages show it: the text of a literal without
/// floating-point numbers, else its kind.
pub open spec fn describe(v: ValueView) -> Seq<char> {
    match v {
        ValueView::Literal(l) => if l.has_float() {
            l.kind_name()
        } else {
            l.text()
        },
        ValueView::Expression(_) => "expression"@,
        ValueView::Empty => "empty"@,
    }
}

/// The error for a value that is not of the type that a parameter asks for.
pub open spec fn conversion_error(v: ValueView, to_type: Seq<char>) -> ErrorView {
    ErrorView::ConversionError {
        from_type: kind_label(v),
        to_type,
        value: describe(v),
        position: None,
    }
}

/// The message for a type that names no enum.
pub open spec fn enum_not_found(name: Seq<char>) -> Seq<char> {
    "Enum '"@ + name + "' not found"@
}

/// The message for a value that is no variant of the enum of its parameter.
pub open spec fn not_a_variant(parameter: Seq<char>, enum_name: Seq<char>, value: Seq<char>) -> Seq<
    char,
> {
    "Parameter '"@ + parameter + "' is of the enum '"@ + enum_name + "' and '"@ + value
        + "' is none of its variants"@
}

/// The message for a parameter that got no value and has no default.
pub open spec fn no_default(parameter: Seq<char>) -> Seq<char> {
    "No default value for parameter "@ + parameter + " and no value provided"@
}

/// A value as an argument of the given type: `bool`, `number`, `float` and
/// `string` take a literal of that kind; any other type names an enum and
/// takes one of its variants, for which the text of the variant is bound.
pub open spec fn typed_value(
    v: ValueView,
    param_type: Seq<char>,
    parameter: Seq<char>,
    s: EvalScope,
) -> Result<ValueView, ErrorView> {
    if param_type == "bool"@ {
        match v {
            ValueView::Literal(LiteralView::Boolean(_)) => Ok(v),
            _ => Err(conversion_error(v, "bool"@)),
        }
    } else if param_type == "number"@ {
        match v {
            ValueView::Literal(LiteralView::Number(_)) => Ok(v),
            _ => Err(conversion_error(v, "integer"@)),
        }
    } else if param_type == "float"@ {
        match v {
            ValueView::Literal(LiteralView::Float(_)) => Ok(v),
            _ => Err(conversion_error(v, "float"@)),
        }
    } else if param_type == "string"@ {
        match v {
            ValueView::Literal(LiteralView::String(_)) => Ok(v),
            _ => Err(conversion_error(v, "String"@)),
        }
    } else if !s.enums.contains_key(param_type) {
        Err(ErrorView::plain(enum_not_found(param_type)))
    } else {
        match v {
            ValueView::Literal(LiteralView::String(name)) => if s.enums[param_type].contains_key(
                name,
            ) {
                Ok(ValueView::Literal(LiteralView::String(s.enums[param_type][name])))
            } else {
                Err(ErrorView::plain(not_a_variant(parameter, param_type, name)))
            },
            _ => Err(conversion_error(v, "String"@)),
        }
    }
}

/// The value that a parameter gets from an argument.
///
/// With an expression: its value, checked against the type of the parameter;
/// for a parameter without a type, the text of its value. Without one: `true`
/// for a parameter without a type or of type `bool`, else the value of the
/// default of the parameter, which it must have.
pub open spec fn argument_value(
    parameter: ParameterView,
    value: Option<ExprView>,
    s: EvalScope,
    fuel: nat,
) -> Outcome<ValueView> {
    match value {
        Some(e) => match eval(e, s, None, fuel) {
            Outcome::Value(v) => match parameter.param_type {
                Some(t) => match typed_value(v, t, parameter.name, s) {
                    Ok(x) => Outcome::Value(x),
                    Err(x) => Outcome::Failure(x),
                },
                None => match value_text(v, s, fuel) {
                    Outcome::Value(t) => Outcome::Value(ValueView::Literal(LiteralView::String(t))),
                    Outcome::Failure(x) => Outcome::Failure(x),
                    Outcome::Rounded => Outcome::Rounded,
                },
            },
            Outcome::Failure(x) => Outcome::Failure(x),
            Outcome::Rounded => Outcome::Rounded,
        },
        None => match parameter.param_type {
            None => Outcome::Value(ValueView::Literal(LiteralView::Boolean(true))),
            Some(t) => if t == "bool"@ {
                Outcome::Value(ValueView::Literal(LiteralView::Boolean(true)))
            } else {
                match parameter.default_value {
                    None => Outcome::Failure(ErrorView::plain(no_default(parameter.name))),
                    Some(d) => eval(d, s, None, fuel),
                }
            },
        },
    }
}

/// The place of the parameter called `name` among the first `n`, or `n`.
pub open spec fn parameter_place(parameters: Seq<ParameterView>, name: Seq<char>, n: nat) -> nat
    decreases n,
{
    if n == 0 || n > parameters.len() {
        n
    } else {
        let before = parameter_place(parameters, name, (n - 1) as nat);
        if before < n - 1 {
            before
        } else if parameters[n - 1].name == name {
            (n - 1) as nat
        } else {
            n
        }
    }
}

/// The variables that the first `n` arguments bind: for each argument that
/// names a parameter, in the order of the arguments, the name of the
/// parameter and the value it gets. An argument that names no parameter
/// binds nothing.
pub open spec fn bound_variables(
    signature: SignatureView,
    args: Seq<InputArgView>,
    n: nat,
    s: EvalScope,
    fuel: nat,
) -> Outcome<Seq<(Seq<char>, ValueView)>>
    decreases n,
{
    if n == 0 || n > args.len() {
        Outcome::Value(Seq::empty())
    } else {
        match bound_variables(signature, args, (n - 1) as nat, s, fuel) {
            Outcome::Value(before) => {
                let place = parameter_place(
                    signature.parameters,
                    args[n - 1].name,
                    signature.parameters.len(),
                );
                if place < signature.parameters.len() {
                    match argument_value(
                        signature.parameters[place as int],
                        args[n - 1].value,
                        s,
                        fuel,
                    ) {
                        Outcome::Value(v) => Outcome::Value(
                            before.push((signature.parameters[place as int].name, v)),
                        ),
                        Outcome::Failure(x) => Outcome::Failure(x),
                        Outcome::Rounded => Outcome::Rounded,
                    }
                } else {
                    Outcome::Value(before)
                }
            },
            Outcome::Failure(x) => Outcome::Failure(x),
            Outcome::Rounded => Outcome::Rounded,
        }
    }
}

/// Once the first `k` arguments do not all bind, no longer prefix does.
pub proof fn bound_variables_stops(
    signature: SignatureView,
    args: Seq<InputArgView>,
    k: nat,
    n: nat,
    s: EvalScope,
    fuel: nat,
)
    requires
        k <= n <= args.len(),
        !(bound_variables(signature, args, k, s, fuel) is Value),
    ensures
        bound_variables(signature, args, n, s, fuel) == bound_variables(signature, args, k, s, fuel),
    decreases n,
{
    if k < n {
        bound_variables_stops(signature, args, k, (n - 1) as nat, s, fuel);
    }
}

/// Once the name is found among the first `k` parameters, its place is settled.
pub proof fn parameter_place_settles(parameters: Seq<ParameterView>, name: Seq<char>, k: nat, n: nat)
    requires
        k <= n <= parameters.len(),
        parameter_place(parameters, name, k) < k,
    ensures
        parameter_place(parameters, name, n) == parameter_place(parameters, name, k),
    decreases n,
{
    if k < n {
        parameter_place_settles(parameters, name, k, (n - 1) as nat);
    }
}

/// Bound variables as the contracts see them.
pub open spec fn variable_views(v: Seq<(String, LoomValue)>) -> Seq<(Seq<char>, ValueView)> {
    Seq::new(v.len(), |i: int| (v[i].0@, v[i].1@))
}

fn kind_of(value: &LoomValue) -> (r: String)
    ensures
        r@ == kind_label(value@),
{
    match value {
        LoomValue::Literal(l) => l.kind_name(),
        LoomValue::Expression(_) => String::from_str("expression"),
        LoomValue::Empty => String::from_str("empty"),
    }
}

/// Floating-point operations for texts in which no floating-point number
/// occurs: nothing is computed. An operation on two numbers hands back the
/// first, an integer becomes the bits of zero, and a number is rendered as
/// the empty text.
struct NoFloats;

impl FloatArithmetic for NoFloats {
    fn sum(&self, a: FloatBits, b: FloatBits) -> (r: FloatBits)
        ensures
            r == a,
    {
        a
    }

    fn difference(&self, a: FloatBits, b: FloatBits) -> (r: FloatBits)
        ensures
            r == a,
    {
        a
    }

    fn product(&self, a: FloatBits, b: FloatBits) -> (r: FloatBits)
        ensures
            r == a,
    {
        a
    }

    fn quotient(&self, a: FloatBits, b: FloatBits) -> (r: FloatBits)
        ensures
            r == a,
    {
        a
    }

    fn from_integer(&self, n: i64) -> (r: FloatBits)
        ensures
            r.bits == 0,
    {
        FloatBits { bits: 0 }
    }

    fn render(&self, a: FloatBits) -> (r: String)
        ensures
            r@ == Seq::<char>::empty(),
    {
        String::new()
    }
}

/// The error for a value that is not of the wanted type.
pub fn conversion_of(value: &LoomValue, to_type: &str) -> (r: LoomError)
    ensures
        r@ == conversion_error(value@, to_type@),
{
    let shown = match value {
        LoomValue::Literal(l) => if has_float(l) {
            l.kind_name()
        } else {
            l.stringify(&NoFloats)
        },
        LoomValue::Expression(_) => String::from_str("expression"),
        LoomValue::Empty => String::from_str("empty"),
    };
    LoomError::conversion(kind_of(value).as_str(), to_type, shown.as_str())
}

impl LoomValue {
    /// The boolean that the value is, or a conversion error.
    pub fn into_bool(self) -> (r: Result<bool, LoomError>)
        ensures
            match self@ {
                ValueView::Literal(LiteralView::Boolean(b)) => r == Ok::<bool, LoomError>(b),
                _ => r is Err && r->Err_0@ == conversion_error(self@, "bool"@),
            },
    {
        match self {
            LoomValue::Literal(LiteralValue::Boolean(b)) => Ok(b),
            other => Err(conversion_of(&other, "bool")),
        }
    }

    /// The string that the value is, or a conversion error.
    pub fn into_string(self) -> (r: Result<String, LoomError>)
        ensures
            match self@ {
                ValueView::Literal(LiteralView::String(s)) => r is Ok && r->Ok_0@ == s,
                _ => r is Err && r->Err_0@ == conversion_error(self@, "String"@),
            },
    {
        match self {
            LoomValue::Literal(LiteralValue::String(s)) => Ok(s),
            other => Err(conversion_of(&other, "String")),
        }
    }

    /// The integer that the value is, or a conversion error.
    pub fn into_number(self) -> (r: Result<i64, LoomError>)
        ensures
            match self@ {
                ValueView::Literal(LiteralView::Number(n)) => r is Ok && r->Ok_0 as int == n,
                _ => r is Err && r->Err_0@ == conversion_error(self@, "integer"@),
            },
    {
        match self {
            LoomValue::Literal(LiteralValue::Number(n)) => Ok(n),
            other => Err(conversion_of(&other, "integer")),
        }
    }

    /// The floating-point number that the value is, or a conversion error.
    pub fn into_float(self) -> (r: Result<FloatBits, LoomError>)
        ensures
            match self@ {
                ValueView::Literal(LiteralView::Float(x)) => r == Ok::<
                    FloatBits,
                    LoomError,
                >(x),
                _ => r is Err && r->Err_0@ == conversion_error(self@, "float"@),
            },
    {
        match self {
            LoomValue::Literal(LiteralValue::Float(x)) => Ok(x),
            other => Err(conversion_of(&other, "float")),
        }
    }

    /// The items of the array that the value is, or a conversion error.
    pub fn into_array(self) -> (r: Result<Vec<LiteralValue>, LoomError>)
        ensures
            match self@ {
                ValueView::Literal(LiteralView::Array(items)) => r is Ok && literal_views(
                    r->Ok_0@,
                ) == items,
                _ => r is Err && r->Err_0@ == conversion_error(self@, "Array"@),
            },
    {
        match self {
            LoomValue::Literal(LiteralValue::Array(items)) => Ok(items),
            other => Err(conversion_of(&other, "Array")),
        }
    }

    /// The text of the JSON document that the value is, or a conversion error.
    pub fn into_json(self) -> (r: Result<String, LoomError>)
        ensures
            match self@ {
                ValueView::Literal(LiteralView::Json(s)) => r is Ok && r->Ok_0@ == s,
                _ => r is Err && r->Err_0@ == conversion_error(self@, "Json"@),
            },
    {
        match self {
            LoomValue::Literal(LiteralValue::Json(s)) => Ok(s),
            other => Err(conversion_of(&other, "Json")),
        }
    }
}

fn check_type(
    value: LoomValue,
    param_type: &str,
    parameter: &str,
    loom_context: &LoomContext,
    context: &ExecutionContext,
) -> (r: Result<LoomValue, LoomError>)
    ensures
        match typed_value(value@, param_type@, parameter@, scope_of(loom_context, context)) {
            Ok(v) => r is Ok && r->Ok_0@ == v,
            Err(e) => r is Err && r->Err_0@ == e,
        },
{
    if text_eq(param_type, "bool") {
        match &value {
            LoomValue::Literal(LiteralValue::Boolean(_)) => Ok(value),
            _ => Err(conversion_of(&value, "bool")),
        }
    } else if text_eq(param_type, "number") {
        match &value {
            LoomValue::Literal(LiteralValue::Number(_)) => Ok(value),
            _ => Err(conversion_of(&value, "integer")),
        }
    } else if text_eq(param_type, "float") {
        match &value {
            LoomValue::Literal(LiteralValue::Float(_)) => Ok(value),
            _ => Err(conversion_of(&value, "float")),
        }
    } else if text_eq(param_type, "string") {
        match &value {
            LoomValue::Literal(LiteralValue::String(_)) => Ok(value),
            _ => Err(conversion_of(&value, "String")),
        }
    } else {
        let definition = match loom_context.find_enum(param_type) {
            Some(d) => d,
            None => {
                let mut message = String::from_str("Enum '");
                message.append(param_type);
                message.append("' not found");
                return Err(LoomError::from_message(message));
            },
        };
        match &value {
            LoomValue::Literal(LiteralValue::String(name)) => {
                match definition.variants.get(name.as_str()) {
                    Some(text) => Ok(LoomValue::Literal(LiteralValue::String(text.clone()))),
                    None => {
                        let mut message = String::from_str("Parameter '");
                        message.append(parameter);
                        message.append("' is of the enum '");
                        message.append(param_type);
                        message.append("' and '");
                        message.append(name.as_str());
                        message.append("' is none of its variants");
                        Err(LoomError::from_message(message))
                    },
                }
            },
            _ => Err(conversion_of(&value, "String")),
        }
    }
}

impl ParameterDefinition {
    /// The value that the parameter gets from an argument.
    pub fn value_from_arg<F: FloatArithmetic>(
        &self,
        value: Option<&Expression>,
        loom_context: &LoomContext,
        context: &ExecutionContext,
        floats: &F,
    ) -> (r: Result<LoomValue, LoomError>)
        ensures
            value_agrees(
                r,
                argument_value(
                    self@,
                    match value {
                        Some(e) => Some(e@),
                        None => None,
                    },
                    scope_of(loom_context, context),
                    DEFERRED_LIMIT as nat,
                ),
            ),
    {
        match value {
            Some(expression) => {
                let evaluated = match expression.evaluate_within(
                    loom_context,
                    context,
                    &None,
                    floats,
                    DEFERRED_LIMIT,
                ) {
                    Ok(v) => v,
                    Err(e) => {
                        return Err(e);
                    },
                };
                match &self.param_type {
                    Some(param_type) => check_type(
                        evaluated,
                        param_type.as_str(),
                        self.name.as_str(),
                        loom_context,
                        context,
                    ),
                    None => {
                        match evaluated.stringify_within(loom_context, context, floats, DEFERRED_LIMIT) {
                            Ok(text) => Ok(LoomValue::Literal(LiteralValue::String(text))),
                            Err(e) => Err(e),
                        }
                    },
                }
            },
            None => {
                match &self.param_type {
                    None => Ok(LoomValue::Literal(LiteralValue::Boolean(true))),
                    Some(param_type) => {
                        if text_eq(param_type.as_str(), "bool") {
                            Ok(LoomValue::Literal(LiteralValue::Boolean(true)))
                        } else {
                            match &self.default_value {
                                None => {
                                    let mut message = String::from_str(
                                        "No default value for parameter ",
                                    );
                                    message.append(self.name.as_str());
                                    message.append(" and no value provided");
                                    Err(LoomError::from_message(message))
                                },
                                Some(default) => default.evaluate_within(
                                    loom_context,
                                    context,
                                    &None,
                                    floats,
                                    DEFERRED_LIMIT,
                                ),
                            }
                        }
                    },
                }
            },
        }
    }

    /// The name of the parameter with the value of its default, where it has
    /// one that evaluates.
    pub fn evaluate<F: FloatArithmetic>(
        &self,
        loom_context: &LoomContext,
        context: &ExecutionContext,
        floats: &F,
    ) -> (r: (String, Option<LoomValue>))
        ensures
            r.0@ == self@.name,
            match self@.default_value {
                None => r.1 is None,
                Some(d) => match eval(d, scope_of(loom_context, context), None, DEFERRED_LIMIT as nat) {
                    Outcome::Value(v) => r.1 is Some && r.1->0@ == v,
                    Outcome::Failure(_) => r.1 is None,
                    Outcome::Rounded => true,
                },
            },
    {
        let value = match &self.default_value {
            Some(expression) => {
                match expression.evaluate_within(loom_context, context, &None, floats, DEFERRED_LIMIT) {
                    Ok(v) => Some(v),
                    Err(_) => None,
                }
            },
            None => None,
        };
        (self.name.clone(), value)
    }
}

/// The value of a parameter among those given, else that of its default,
/// else nothing.
pub open spec fn settled_value(
    parameter: ParameterView,
    given: Map<Seq<char>, ValueView>,
    s: EvalScope,
    fuel: nat,
) -> Outcome<ValueView> {
    if given.contains_key(parameter.name) {
        Outcome::Value(given[parameter.name])
    } else {
        match parameter.default_value {
            None => Outcome::Value(ValueView::Empty),
            Some(d) => match eval(d, s, None, fuel) {
                Outcome::Value(v) => Outcome::Value(v),
                Outcome::Failure(_) => Outcome::Value(ValueView::Empty),
                Outcome::Rounded => Outcome::Rounded,
            },
        }
    }
}

impl Signature {
    fn find_parameter(&self, name: &str) -> (r: Option<usize>)
        ensures
            match r {
                Some(i) => i < self.parameters@.len() && parameter_place(
                    self@.parameters,
                    name@,
                    self@.parameters.len(),
                ) == i,
                None => parameter_place(self@.parameters, name@, self@.parameters.len())
                    == self@.parameters.len(),
            },
    {
        let mut i: usize = 0;
        while i < self.parameters.len()
            invariant
                i <= self.parameters.len(),
                parameter_place(self@.parameters, name@, i as nat) == i,
            decreases self.parameters.len() - i,
        {
            assert(self@.parameters[i as int] == self.parameters@[i as int]@);
            if text_eq(self.parameters[i].name.as_str(), name) {
                proof {
                    parameter_place_settles(
                        self@.parameters,
                        name@,
                        (i + 1) as nat,
                        self@.parameters.len(),
                    );
                }
                return Some(i);
            }
            i += 1;
        }
        None
    }

    /// The variables that the arguments bind, in the order of the arguments.
    pub fn args_into_variable<F: FloatArithmetic>(
        &self,
        loom_context: &LoomContext,
        context: &ExecutionContext,
        args: &Vec<InputArg>,
        floats: &F,
    ) -> (r: Result<Vec<(String, LoomValue)>, LoomError>)
        ensures
            match bound_variables(
                self@,
                views(args@),
                args@.len(),
                scope_of(loom_context, context),
                DEFERRED_LIMIT as nat,
            ) {
                Outcome::Value(bound) => r is Ok && variable_views(r->Ok_0@) == bound,
                Outcome::Failure(e) => r is Err && r->Err_0@ == e,
                Outcome::Rounded => true,
            },
    {
        let ghost scope = scope_of(loom_context, context);
        let ghost all = views(args@);
        let ghost fuel = DEFERRED_LIMIT as nat;
        let mut out: Vec<(String, LoomValue)> = Vec::new();
        let mut i: usize = 0;
        assert(variable_views(out@) =~= Seq::<(Seq<char>, ValueView)>::empty());
        while i < args.len()
            invariant
                i <= args.len(),
                all == views(args@),
                scope == scope_of(loom_context, context),
                fuel == DEFERRED_LIMIT as nat,
                match bound_variables(self@, all, i as nat, scope, fuel) {
                    Outcome::Value(bound) => variable_views(out@) == bound,
                    Outcome::Failure(_) => false,
                    Outcome::Rounded => true,
                },
            decreases args.len() - i,
        {
            assert(all[i as int] == args@[i as int]@);
            match self.find_parameter(args[i].name.as_str()) {
                Some(place) => {
                    assert(self@.parameters[place as int] == self.parameters@[place as int]@);
                    let parameter = &self.parameters[place];
                    let value = match parameter.value_from_arg(
                        args[i].value.as_ref(),
                        loom_context,
                        context,
                        floats,
                    ) {
                        Ok(v) => v,
                        Err(e) => {
                            proof {
                                if !(bound_variables(self@, all, (i + 1) as nat, scope, fuel) is Value) {
                                    bound_variables_stops(
                                        self@,
                                        all,
                                        (i + 1) as nat,
                                        args@.len(),
                                        scope,
                                        fuel,
                                    );
                                }
                            }
                            return Err(e);
                        },
                    };
                    let entry = (parameter.name.clone(), value);
                    proof {
                        let before = out@;
                        assert(variable_views(before.push(entry)) =~= variable_views(before).push(
                            (entry.0@, entry.1@),
                        ));
                    }
                    out.push(entry);
                },
                None => {},
            }
            i += 1;
        }
        Ok(out)
    }

    /// For each parameter, the value among `args` under its name, else the
    /// value of its default, else nothing.
    pub fn evaluate_with_args<F: FloatArithmetic>(
        &self,
        args: &Dictionary<LoomValue>,
        loom_context: &LoomContext,
        context: &ExecutionContext,
        floats: &F,
    ) -> (r: Dictionary<LoomValue>)
        ensures
            match settled_values(
                self@.parameters,
                view_map(*args),
                self@.parameters.len(),
                scope_of(loom_context, context),
                DEFERRED_LIMIT as nat,
            ) {
                Some(values) => view_map(r) == values,
                None => true,
            },
    {
        let ghost scope = scope_of(loom_context, context);
        let ghost given = view_map(*args);
        let ghost fuel = DEFERRED_LIMIT as nat;
        let mut result: Dictionary<LoomValue> = Dictionary::new();
        let mut i: usize = 0;
        assert(view_map(result) =~= Map::<Seq<char>, ValueView>::empty());
        while i < self.parameters.len()
            invariant
                i <= self.parameters.len(),
                scope == scope_of(loom_context, context),
                given == view_map(*args),
                fuel == DEFERRED_LIMIT as nat,
                match settled_values(self@.parameters, given, i as nat, scope, fuel) {
                    Some(values) => view_map(result) == values,
                    None => true,
                },
            decreases self.parameters.len() - i,
        {
            assert(self@.parameters[i as int] == self.parameters@[i as int]@);
            let (name, default) = self.parameters[i].evaluate(loom_context, context, floats);
            let value = match args.get(name.as_str()) {
                Some(provided) => provided.clone(),
                None => match default {
                    Some(v) => v,
                    None => LoomValue::Empty,
                },
            };
            proof {
                let before = result;
                assert(view_map(before).insert(name@, value@) =~= before@.insert(
                    name@,
                    value,
                ).map_values(|v: LoomValue| v@));
            }
            result.insert(name, value);
            proof {
                if settled_values(self@.parameters, given, (i + 1) as nat, scope, fuel) is None
                    && settled_values(self@.parameters, given, i as nat, scope, fuel) is Some {
                    assert(settled_value(self@.parameters[i as int], given, scope, fuel) is Rounded);
                }
            }
            i += 1;
        }
        result
    }
}

/// The values of the first `n` parameters by their names; a later parameter
/// of the same name takes the place of an earlier one. Nothing is said where
/// a default depends on floating-point rounding.
pub open spec fn settled_values(
    parameters: Seq<ParameterView>,
    given: Map<Seq<char>, ValueView>,
    n: nat,
    s: EvalScope,
    fuel: nat,
) -> Option<Map<Seq<char>, ValueView>>
    decreases n,
{
    if n == 0 || n > parameters.len() {
        Some(Map::empty())
    } else {
        match settled_values(parameters, given, (n - 1) as nat, s, fuel) {
            Some(before) => match settled_value(parameters[n - 1], given, s, fuel) {
                Outcome::Value(v) => Some(before.insert(parameters[n - 1].name, v)),
                _ => None,
            },
            None => None,
        }
    }
}

} // verus!

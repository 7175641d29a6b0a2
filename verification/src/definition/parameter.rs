//! Checks of declared parameters, and of the arguments of a call against them.

use vstd::prelude::*;
use vstd::string::*;
use crate::ast::{ExprView, Expression};
use crate::definition::{
    ArgDefinition,
    ArgDefinitionView,
    DeclaredView,
    ParameterDefinition,
    ParameterType,
    TypeView,
    ValidationRules,
};
use crate::error::{ErrorView, InterceptorErrorView, LoomError};
use crate::floats::FloatArithmetic;
use crate::text::{nat_text, text_eq, texts, unsigned_to_text};
use crate::types::{
    literal_views, start_position, LiteralValue, LiteralView, Position,
};
use crate::views::{count_such, first_such, first_such_settles, views};

verus! {

/// How the arguments of a call are written.
#[derive(Debug, Clone, Copy, PartialEq, Eq, Structural)]
pub enum ArgumentType {
    Positional,
    Named,
}

/// A validation error with the message.
pub open spec fn invalid(message: Seq<char>) -> ErrorView {
    ErrorView::ValidationError { message, position: None }
}

/// An error about the arguments of `directive`.
pub open spec fn bad_argument(directive: Seq<char>, message: Seq<char>) -> ErrorView {
    ErrorView::interceptor(InterceptorErrorView::ParameterValidation { name: directive, message })
}

/// A wrong number of arguments of `directive`.
pub open spec fn wrong_count(directive: Seq<char>, expected: nat, provided: nat) -> ErrorView {
    ErrorView::ParameterError {
        definition_name: directive,
        expected_count: expected,
        provided_count: provided,
        parameter_name: None,
        position: None,
    }
}

/// Whether an argument among the first `n` is written by position.
pub open spec fn any_positional(args: Seq<ArgDefinitionView>, n: nat) -> bool
    decreases n,
{
    if n == 0 || n > args.len() {
        false
    } else {
        any_positional(args, (n - 1) as nat) || args[n - 1] is Positional
    }
}

/// Whether an argument among the first `n` is written by name.
pub open spec fn any_named(args: Seq<ArgDefinitionView>, n: nat) -> bool
    decreases n,
{
    if n == 0 || n > args.len() {
        false
    } else {
        any_named(args, (n - 1) as nat) || args[n - 1] is Named
    }
}

/// How the arguments are written: all by position, which holds of no
/// arguments too, or all by name. To mix the two is an error.
pub open spec fn argument_type(args: Seq<ArgDefinitionView>) -> Result<ArgumentType, ErrorView> {
    if any_positional(args, args.len()) && any_named(args, args.len()) {
        Err(invalid("Cannot mix 'positional' and 'named' arguments in the same directive call"@))
    } else if any_named(args, args.len()) {
        Ok(ArgumentType::Named)
    } else {
        Ok(ArgumentType::Positional)
    }
}

/// Decides whether the arguments are written by position or by name.
pub fn determine_argument_type(args: &Vec<ArgDefinition>) -> (r: Result<ArgumentType, LoomError>)
    ensures
        match argument_type(views(args@)) {
            Ok(t) => r == Ok::<ArgumentType, LoomError>(t),
            Err(e) => r is Err && r->Err_0@ == e,
        },
{
    let mut has_positional = false;
    let mut has_named = false;
    let mut i: usize = 0;
    while i < args.len()
        invariant
            i <= args.len(),
            has_positional == any_positional(views(args@), i as nat),
            has_named == any_named(views(args@), i as nat),
        decreases args.len() - i,
    {
        assert(views(args@)[i as int] == args@[i as int]@);
        match &args[i] {
            ArgDefinition::Positional(_) => {
                has_positional = true;
            },
            ArgDefinition::Named { .. } => {
                has_named = true;
            },
        }
        i += 1;
    }
    if has_positional && has_named {
        return Err(
            LoomError::validation(
                "Cannot mix 'positional' and 'named' arguments in the same directive call",
            ),
        );
    }
    if has_named {
        Ok(ArgumentType::Named)
    } else {
        Ok(ArgumentType::Positional)
    }
}

/// Whether the literals of a list all fit a type.
pub open spec fn all_fit(items: Seq<LiteralView>, expected: TypeView) -> bool
    decreases items, expected,
{
    forall|i: int| 0 <= i < items.len() ==> literal_fits(#[trigger] items[i], expected)
}

/// Whether a literal fits a type: a string fits `String`, an integer and a
/// floating-point number fit `Number`, a boolean fits `Boolean`, an array
/// fits `Array` where all its items fit the inner type, anything fits `Json`,
/// a string fits `Enum` where it is one of the names. Nothing fits `Any`.
pub open spec fn literal_fits(literal: LiteralView, expected: TypeView) -> bool
    decreases literal, expected,
{
    match (literal, expected) {
        (LiteralView::String(_), TypeView::String) => true,
        (LiteralView::Number(_), TypeView::Number) => true,
        (LiteralView::Float(_), TypeView::Number) => true,
        (LiteralView::Boolean(_), TypeView::Boolean) => true,
        (LiteralView::Array(items), TypeView::Array(inner)) => all_fit(items, *inner),
        (_, TypeView::Json) => true,
        (LiteralView::String(s), TypeView::Enum(names)) => names.contains(s),
        _ => false,
    }
}

/// The error for a literal that does not fit the type of its parameter.
pub open spec fn wrong_type(
    literal: LiteralView,
    expected: TypeView,
    parameter: Seq<char>,
    directive: Seq<char>,
) -> ErrorView {
    bad_argument(
        directive,
        "Parameter '"@ + parameter + "' expects type "@ + expected.label() + " but got "@
            + literal.kind_name(),
    )
}

fn items_fit(items: &Vec<LiteralValue>, expected: &ParameterType) -> (r: bool)
    ensures
        r == all_fit(literal_views(items@), expected@),
    decreases items, expected,
{
    let mut i: usize = 0;
    while i < items.len()
        invariant
            i <= items.len(),
            forall|j: int|
                0 <= j < i ==> literal_fits(#[trigger] literal_views(items@)[j], expected@),
        decreases items.len() - i,
    {
        if !fits(&items[i], expected) {
            assert(!literal_fits(literal_views(items@)[i as int], expected@));
            return false;
        }
        i += 1;
    }
    true
}

fn name_listed(names: &Vec<String>, name: &str) -> (r: bool)
    ensures
        r == texts(names@).contains(name@),
{
    let mut i: usize = 0;
    while i < names.len()
        invariant
            i <= names.len(),
            forall|j: int| 0 <= j < i ==> texts(names@)[j] != name@,
        decreases names.len() - i,
    {
        if text_eq(names[i].as_str(), name) {
            assert(texts(names@)[i as int] == name@);
            return true;
        }
        i += 1;
    }
    false
}

/// Whether a literal fits a type.
pub fn fits(literal: &LiteralValue, expected: &ParameterType) -> (r: bool)
    ensures
        r == literal_fits(literal@, expected@),
    decreases literal, expected,
{
    match (literal, expected) {
        (LiteralValue::String(_), ParameterType::String) => true,
        (LiteralValue::Number(_), ParameterType::Number) => true,
        (LiteralValue::Float(_), ParameterType::Number) => true,
        (LiteralValue::Boolean(_), ParameterType::Boolean) => true,
        (LiteralValue::Array(items), ParameterType::Array(inner)) => items_fit(items, inner),
        (_, ParameterType::Json) => true,
        (LiteralValue::String(s), ParameterType::Enum(names)) => name_listed(names, s.as_str()),
        _ => false,
    }
}

/// Checks that a literal fits the type of its parameter.
pub fn validate_literal_type(
    literal: &LiteralValue,
    expected_type: &ParameterType,
    param_name: &str,
    directive_name: &str,
) -> (r: Result<(), LoomError>)
    ensures
        r is Ok <==> literal_fits(literal@, expected_type@),
        r is Err ==> r->Err_0@ == wrong_type(
            literal@,
            expected_type@,
            param_name@,
            directive_name@,
        ),
{
    if fits(literal, expected_type) {
        Ok(())
    } else {
        let mut message = String::from_str("Parameter '");
        message.append(param_name);
        message.append("' expects type ");
        message.append(expected_type.to_text().as_str());
        message.append(" but got ");
        message.append(literal.kind_name().as_str());
        Err(LoomError::parameter_validation(directive_name, message.as_str()))
    }
}

/// Whether a parameter may be given by position.
pub fn can_be_positional(param: &ParameterDefinition) -> (r: bool)
    ensures
        r == !param.varargs,
{
    !param.varargs
}

/// Whether one of the first `n` parameters takes all remaining arguments.
pub open spec fn any_varargs(parameters: Seq<DeclaredView>, n: nat) -> bool
    decreases n,
{
    if n == 0 || n > parameters.len() {
        false
    } else {
        any_varargs(parameters, (n - 1) as nat) || parameters[n - 1].varargs
    }
}

/// Whether a parameter takes all remaining arguments.
pub fn has_varargs_parameter(parameters: &Vec<ParameterDefinition>) -> (r: bool)
    ensures
        r == any_varargs(views(parameters@), parameters@.len()),
{
    let mut i: usize = 0;
    while i < parameters.len()
        invariant
            i <= parameters.len(),
            !any_varargs(views(parameters@), i as nat),
        decreases parameters.len() - i,
    {
        assert(views(parameters@)[i as int] == parameters@[i as int]@);
        if parameters[i].varargs {
            proof {
                varargs_stays(views(parameters@), (i + 1) as nat, parameters@.len());
            }
            return true;
        }
        i += 1;
    }
    false
}

/// A parameter found among the first `k` is among any longer prefix.
pub proof fn varargs_stays(parameters: Seq<DeclaredView>, k: nat, n: nat)
    requires
        k <= n <= parameters.len(),
        any_varargs(parameters, k),
    ensures
        any_varargs(parameters, n),
    decreases n,
{
    if k < n {
        varargs_stays(parameters, k, (n - 1) as nat);
    }
}

/// The place of the first parameter called `name` among the first `n`, or `n`.
pub open spec fn declared_place(parameters: Seq<DeclaredView>, name: Seq<char>, n: nat) -> nat
    decreases n,
{
    if n == 0 || n > parameters.len() {
        n
    } else {
        let before = declared_place(parameters, name, (n - 1) as nat);
        if before < n - 1 {
            before
        } else if parameters[n - 1].name == name {
            (n - 1) as nat
        } else {
            n
        }
    }
}

/// Once the name is found among the first `k` parameters, its place is settled.
pub proof fn declared_place_settles(parameters: Seq<DeclaredView>, name: Seq<char>, k: nat, n: nat)
    requires
        k <= n <= parameters.len(),
        declared_place(parameters, name, k) < k,
    ensures
        declared_place(parameters, name, n) == declared_place(parameters, name, k),
    decreases n,
{
    if k < n {
        declared_place_settles(parameters, name, k, (n - 1) as nat);
    }
}

fn find_declared(parameters: &Vec<ParameterDefinition>, name: &str) -> (r: Option<usize>)
    ensures
        match r {
            Some(i) => i < parameters@.len() && declared_place(
                views(parameters@),
                name@,
                parameters@.len(),
            ) == i && parameters@[i as int].name@ == name@,
            None => declared_place(views(parameters@), name@, parameters@.len())
                == parameters@.len(),
        },
{
    let mut i: usize = 0;
    while i < parameters.len()
        invariant
            i <= parameters.len(),
            declared_place(views(parameters@), name@, i as nat) == i,
        decreases parameters.len() - i,
    {
        assert(views(parameters@)[i as int] == parameters@[i as int]@);
        if text_eq(parameters[i].name.as_str(), name) {
            proof {
                declared_place_settles(views(parameters@), name@, (i + 1) as nat, parameters@.len());
            }
            return Some(i);
        }
        i += 1;
    }
    None
}

/// The parameter that the argument at place `i` is checked against, if any.
///
/// By position: the parameter at the same place where no parameter takes all
/// remaining arguments; else the last parameter, for an argument at or
/// behind its place. By name: the first parameter of the name.
pub open spec fn checked_against(
    parameters: Seq<DeclaredView>,
    arg: ArgDefinitionView,
    i: nat,
) -> Option<nat> {
    let varargs = any_varargs(parameters, parameters.len());
    match arg {
        ArgDefinitionView::Positional(_) => if i < parameters.len() && !varargs {
            Some(i)
        } else if varargs && i >= parameters.len() - 1 {
            Some((parameters.len() - 1) as nat)
        } else {
            None
        },
        ArgDefinitionView::Named { name, .. } => if declared_place(
            parameters,
            name,
            parameters.len(),
        ) < parameters.len() {
            Some(declared_place(parameters, name, parameters.len()))
        } else {
            None
        },
    }
}

/// The literal that an argument is written as, if it is one.
pub open spec fn literal_of(arg: ArgDefinitionView) -> Option<LiteralView> {
    match arg {
        ArgDefinitionView::Positional(ExprView::Literal(l)) => Some(l),
        ArgDefinitionView::Named { value: ExprView::Literal(l), .. } => Some(l),
        _ => None,
    }
}

/// The error of the argument at place `i`, if it is a literal that does not
/// fit the parameter it is checked against.
pub open spec fn literal_error(
    parameters: Seq<DeclaredView>,
    arg: ArgDefinitionView,
    i: nat,
    directive: Seq<char>,
) -> Option<ErrorView> {
    match (literal_of(arg), checked_against(parameters, arg, i)) {
        (Some(l), Some(p)) => if literal_fits(l, parameters[p as int].param_type) {
            None
        } else {
            Some(wrong_type(l, parameters[p as int].param_type, parameters[p as int].name, directive))
        },
        _ => None,
    }
}

/// The error of the first of the first `n` arguments that is a literal of
/// the wrong type.
pub open spec fn first_literal_error(
    parameters: Seq<DeclaredView>,
    args: Seq<ArgDefinitionView>,
    n: nat,
    directive: Seq<char>,
) -> Option<ErrorView>
    decreases n,
{
    if n == 0 || n > args.len() {
        None
    } else {
        match first_literal_error(parameters, args, (n - 1) as nat, directive) {
            Some(e) => Some(e),
            None => literal_error(parameters, args[n - 1], (n - 1) as nat, directive),
        }
    }
}

/// Once an argument among the first `k` is in error, the error is settled.
pub proof fn first_literal_error_settles(
    parameters: Seq<DeclaredView>,
    args: Seq<ArgDefinitionView>,
    k: nat,
    n: nat,
    directive: Seq<char>,
)
    requires
        k <= n <= args.len(),
        first_literal_error(parameters, args, k, directive) is Some,
    ensures
        first_literal_error(parameters, args, n, directive) == first_literal_error(
            parameters,
            args,
            k,
            directive,
        ),
    decreases n,
{
    if k < n {
        first_literal_error_settles(parameters, args, k, (n - 1) as nat, directive);
    }
}

/// Checks the arguments that are written as literals against the types of
/// their parameters. Arguments that are no literals, and arguments that
/// stand for no parameter, are passed over.
pub fn validate_literal_argument_types(
    args: &Vec<ArgDefinition>,
    parameters: &Vec<ParameterDefinition>,
    directive_name: &str,
) -> (r: Result<(), LoomError>)
    ensures
        match first_literal_error(views(parameters@), views(args@), args@.len(), directive_name@) {
            Some(e) => r is Err && r->Err_0@ == e,
            None => r is Ok,
        },
{
    let varargs = has_varargs_parameter(parameters);
    let ghost declared = views(parameters@);
    let ghost all = views(args@);
    let mut i: usize = 0;
    while i < args.len()
        invariant
            i <= args.len(),
            declared == views(parameters@),
            all == views(args@),
            varargs == any_varargs(declared, declared.len()),
            first_literal_error(declared, all, i as nat, directive_name@) is None,
        decreases args.len() - i,
    {
        assert(all[i as int] == args@[i as int]@);
        let checked: Option<(usize, &LiteralValue)> = match &args[i] {
            ArgDefinition::Positional(Expression::Literal(literal)) => {
                if i < parameters.len() && !varargs {
                    Some((i, literal))
                } else if varargs && parameters.len() >= 1 && i >= parameters.len() - 1 {
                    Some((parameters.len() - 1, literal))
                } else {
                    None
                }
            },
            ArgDefinition::Named { name, value: Expression::Literal(literal) } => {
                match find_declared(parameters, name.as_str()) {
                    Some(place) => Some((place, literal)),
                    None => None,
                }
            },
            _ => None,
        };
        proof {
            if varargs && parameters.len() == 0 {
                assert(false);
            }
        }
        match checked {
            Some((place, literal)) => {
                assert(declared[place as int] == parameters@[place as int]@);
                match validate_literal_type(
                    literal,
                    &parameters[place].param_type,
                    parameters[place].name.as_str(),
                    directive_name,
                ) {
                    Ok(_) => {},
                    Err(e) => {
                        proof {
                            first_literal_error_settles(
                                declared,
                                all,
                                (i + 1) as nat,
                                args@.len(),
                                directive_name@,
                            );
                        }
                        return Err(e);
                    },
                }
            },
            None => {},
        }
        i += 1;
    }
    Ok(())
}

/// Whether the parameter at place `i` can only be given by name though it
/// takes all remaining arguments.
pub open spec fn named_varargs(parameters: Seq<DeclaredView>) -> spec_fn(int) -> bool {
    |i: int| 0 <= i < parameters.len() && parameters[i].allow_named_parameter && parameters[i].varargs
}

/// Whether the parameter at place `i` is required.
pub open spec fn required_at(parameters: Seq<DeclaredView>) -> spec_fn(int) -> bool {
    |i: int| 0 <= i < parameters.len() && parameters[i].required
}

/// The message for a parameter that takes all remaining arguments and may be
/// given by name.
pub open spec fn only_named(parameter: Seq<char>) -> Seq<char> {
    "Parameter '"@ + parameter + "' can only be used as named parameter"@
}

/// What is wrong with arguments written by position, if anything: a
/// parameter that takes all remaining arguments and may be given by name;
/// fewer arguments than required parameters; more arguments than parameters,
/// unless one takes all remaining arguments; a literal of the wrong type.
/// The first of these that applies is reported.
pub open spec fn positional_error(
    parameters: Seq<DeclaredView>,
    args: Seq<ArgDefinitionView>,
    directive: Seq<char>,
) -> Option<ErrorView> {
    let odd = first_such(named_varargs(parameters), parameters.len());
    let required = count_such(required_at(parameters), parameters.len());
    if odd < parameters.len() {
        Some(bad_argument(directive, only_named(parameters[odd as int].name)))
    } else if args.len() < required {
        Some(wrong_count(directive, required, args.len()))
    } else if !any_varargs(parameters, parameters.len()) && args.len() > parameters.len() {
        Some(wrong_count(directive, parameters.len(), args.len()))
    } else {
        first_literal_error(parameters, args, args.len(), directive)
    }
}

/// Checks arguments that are written by position.
pub fn validate_positional_arguments(
    args: &Vec<ArgDefinition>,
    parameters: &Vec<ParameterDefinition>,
    directive_name: &str,
) -> (r: Result<(), LoomError>)
    ensures
        match positional_error(views(parameters@), views(args@), directive_name@) {
            Some(e) => r is Err && r->Err_0@ == e,
            None => r is Ok,
        },
{
    let ghost declared = views(parameters@);
    let mut i: usize = 0;
    let mut required_count: usize = 0;
    while i < parameters.len()
        invariant
            i <= parameters.len(),
            declared == views(parameters@),
            first_such(named_varargs(declared), i as nat) == i,
            required_count == count_such(required_at(declared), i as nat),
            required_count <= i,
        decreases parameters.len() - i,
    {
        assert(declared[i as int] == parameters@[i as int]@);
        if parameters[i].allow_named_parameter && !can_be_positional(&parameters[i]) {
            proof {
                first_such_settles(named_varargs(declared), (i + 1) as nat, declared.len());
            }
            let mut message = String::from_str("Parameter '");
            message.append(parameters[i].name.as_str());
            message.append("' can only be used as named parameter");
            return Err(LoomError::parameter_validation(directive_name, message.as_str()));
        }
        if parameters[i].required {
            required_count += 1;
        }
        i += 1;
    }
    if args.len() < required_count {
        return Err(LoomError::parameter_mismatch(directive_name, required_count, args.len()));
    }
    if !has_varargs_parameter(parameters) && args.len() > parameters.len() {
        return Err(LoomError::parameter_mismatch(directive_name, parameters.len(), args.len()));
    }
    validate_literal_argument_types(args, parameters, directive_name)
}

/// The name of an argument that is written by name.
pub open spec fn name_of(arg: ArgDefinitionView) -> Option<Seq<char>> {
    match arg {
        ArgDefinitionView::Named { name, .. } => Some(name),
        ArgDefinitionView::Positional(_) => None,
    }
}

/// Whether an argument before place `i` is written under `name`.
pub open spec fn named_before(args: Seq<ArgDefinitionView>, name: Seq<char>, i: int) -> bool {
    exists|j: int| 0 <= j < i && j < args.len() && name_of(#[trigger] args[j]) == Some(name)
}

/// The names of the parameters, in their order.
pub open spec fn declared_names(parameters: Seq<DeclaredView>) -> Seq<Seq<char>> {
    Seq::new(parameters.len(), |i: int| parameters[i].name)
}

/// What is wrong with the argument at place `i`, written by name, if
/// anything: no parameter has its name; the first parameter of its name may
/// not be given by name, or takes all remaining arguments; an argument before
/// it has the same name.
pub open spec fn named_argument_error(
    parameters: Seq<DeclaredView>,
    args: Seq<ArgDefinitionView>,
    i: int,
    directive: Seq<char>,
) -> Option<ErrorView> {
    match name_of(args[i]) {
        None => None,
        Some(name) => {
            let place = declared_place(parameters, name, parameters.len());
            if place >= parameters.len() {
                Some(
                    ErrorView::DefinitionNotFoundError {
                        name,
                        available_definitions: declared_names(parameters),
                        position: start_position(),
                    },
                )
            } else if !parameters[place as int].allow_named_parameter {
                Some(
                    bad_argument(
                        directive,
                        "Parameter '"@ + name + "' cannot be used as named parameter"@,
                    ),
                )
            } else if parameters[place as int].varargs {
                Some(
                    bad_argument(
                        directive,
                        "Varargs parameter '"@ + name + "' cannot be used as named parameter"@,
                    ),
                )
            } else if named_before(args, name, i) {
                Some(bad_argument(directive, "Parameter '"@ + name + "' specified multiple times"@))
            } else {
                None
            }
        },
    }
}

/// Whether the argument at place `i` is in error.
pub open spec fn named_argument_wrong(
    parameters: Seq<DeclaredView>,
    args: Seq<ArgDefinitionView>,
    directive: Seq<char>,
) -> spec_fn(int) -> bool {
    |i: int| 0 <= i < args.len() && named_argument_error(parameters, args, i, directive) is Some
}

/// Whether the parameter at place `i` is required and no argument is written
/// under its name.
pub open spec fn missing_at(parameters: Seq<DeclaredView>, args: Seq<ArgDefinitionView>) -> spec_fn(
    int,
) -> bool {
    |i: int|
        0 <= i < parameters.len() && parameters[i].required && !named_before(
            args,
            parameters[i].name,
            args.len() as int,
        )
}

/// What is wrong with arguments written by name, if anything: the error of
/// the first argument that is in error, else the first required parameter
/// that no argument names.
pub open spec fn named_error(
    parameters: Seq<DeclaredView>,
    args: Seq<ArgDefinitionView>,
    directive: Seq<char>,
) -> Option<ErrorView> {
    let wrong = first_such(named_argument_wrong(parameters, args, directive), args.len());
    let missing = first_such(missing_at(parameters, args), parameters.len());
    if wrong < args.len() {
        named_argument_error(parameters, args, wrong as int, directive)
    } else if missing < parameters.len() {
        Some(
            bad_argument(
                directive,
                "Required parameter '"@ + parameters[missing as int].name + "' is missing"@,
            ),
        )
    } else {
        None
    }
}

fn written_before(args: &Vec<ArgDefinition>, name: &str, i: usize) -> (r: bool)
    requires
        i <= args.len(),
    ensures
        r == named_before(views(args@), name@, i as int),
{
    let mut j: usize = 0;
    while j < i
        invariant
            j <= i <= args.len(),
            forall|k: int| 0 <= k < j ==> name_of(#[trigger] views(args@)[k]) != Some(name@),
        decreases i - j,
    {
        assert(views(args@)[j as int] == args@[j as int]@);
        match &args[j] {
            ArgDefinition::Named { name: other, .. } => {
                if text_eq(other.as_str(), name) {
                    return true;
                }
            },
            ArgDefinition::Positional(_) => {},
        }
        j += 1;
    }
    false
}

fn names_of(parameters: &Vec<ParameterDefinition>) -> (r: Vec<String>)
    ensures
        texts(r@) == declared_names(views(parameters@)),
{
    let mut out: Vec<String> = Vec::new();
    let mut i: usize = 0;
    while i < parameters.len()
        invariant
            i <= parameters.len(),
            out.len() == i,
            forall|j: int| 0 <= j < i ==> out@[j]@ == parameters@[j].name@,
        decreases parameters.len() - i,
    {
        out.push(parameters[i].name.clone());
        i += 1;
    }
    assert(texts(out@) =~= declared_names(views(parameters@)));
    out
}

fn check_named_argument(
    args: &Vec<ArgDefinition>,
    parameters: &Vec<ParameterDefinition>,
    i: usize,
    directive_name: &str,
) -> (r: Result<(), LoomError>)
    requires
        i < args.len(),
    ensures
        match named_argument_error(views(parameters@), views(args@), i as int, directive_name@) {
            Some(e) => r is Err && r->Err_0@ == e,
            None => r is Ok,
        },
{
    assert(views(args@)[i as int] == args@[i as int]@);
    match &args[i] {
        ArgDefinition::Positional(_) => Ok(()),
        ArgDefinition::Named { name, .. } => {
            let place = match find_declared(parameters, name.as_str()) {
                Some(p) => p,
                None => {
                    return Err(
                        LoomError::definition_not_found(
                            name.as_str(),
                            names_of(parameters),
                            Position::default(),
                        ),
                    );
                },
            };
            assert(views(parameters@)[place as int] == parameters@[place as int]@);
            if !parameters[place].allow_named_parameter {
                let mut message = String::from_str("Parameter '");
                message.append(name.as_str());
                message.append("' cannot be used as named parameter");
                return Err(LoomError::parameter_validation(directive_name, message.as_str()));
            }
            if parameters[place].varargs {
                let mut message = String::from_str("Varargs parameter '");
                message.append(name.as_str());
                message.append("' cannot be used as named parameter");
                return Err(LoomError::parameter_validation(directive_name, message.as_str()));
            }
            if written_before(args, name.as_str(), i) {
                let mut message = String::from_str("Parameter '");
                message.append(name.as_str());
                message.append("' specified multiple times");
                return Err(LoomError::parameter_validation(directive_name, message.as_str()));
            }
            Ok(())
        },
    }
}

/// Checks arguments that are written by name.
pub fn validate_named_arguments(
    args: &Vec<ArgDefinition>,
    parameters: &Vec<ParameterDefinition>,
    directive_name: &str,
) -> (r: Result<(), LoomError>)
    ensures
        match named_error(views(parameters@), views(args@), directive_name@) {
            Some(e) => r is Err && r->Err_0@ == e,
            None => r is Ok,
        },
{
    let ghost declared = views(parameters@);
    let ghost all = views(args@);
    let ghost wrong = named_argument_wrong(declared, all, directive_name@);
    let mut i: usize = 0;
    while i < args.len()
        invariant
            i <= args.len(),
            declared == views(parameters@),
            all == views(args@),
            wrong == named_argument_wrong(declared, all, directive_name@),
            first_such(wrong, i as nat) == i,
        decreases args.len() - i,
    {
        match check_named_argument(args, parameters, i, directive_name) {
            Ok(_) => {},
            Err(e) => {
                proof {
                    assert(wrong(i as int));
                    first_such_settles(wrong, (i + 1) as nat, all.len());
                }
                return Err(e);
            },
        }
        assert(!wrong(i as int));
        i += 1;
    }
    let ghost missing = missing_at(declared, all);
    let mut k: usize = 0;
    while k < parameters.len()
        invariant
            k <= parameters.len(),
            declared == views(parameters@),
            all == views(args@),
            missing == missing_at(declared, all),
            wrong == named_argument_wrong(declared, all, directive_name@),
            first_such(wrong, all.len()) == all.len(),
            first_such(missing, k as nat) == k,
        decreases parameters.len() - k,
    {
        assert(declared[k as int] == parameters@[k as int]@);
        if parameters[k].required && !written_before(args, parameters[k].name.as_str(), args.len()) {
            proof {
                assert(missing(k as int));
                first_such_settles(missing, (k + 1) as nat, declared.len());
            }
            let mut message = String::from_str("Required parameter '");
            message.append(parameters[k].name.as_str());
            message.append("' is missing");
            return Err(LoomError::parameter_validation(directive_name, message.as_str()));
        }
        assert(!missing(k as int));
        k += 1;
    }
    Ok(())
}

/// What is wrong with the arguments of a call, if anything: they mix the two
/// ways of writing arguments, or they fail the check for their way.
pub open spec fn arguments_error(
    parameters: Seq<DeclaredView>,
    args: Seq<ArgDefinitionView>,
    directive: Seq<char>,
) -> Option<ErrorView> {
    match argument_type(args) {
        Err(e) => Some(e),
        Ok(ArgumentType::Positional) => positional_error(parameters, args, directive),
        Ok(ArgumentType::Named) => named_error(parameters, args, directive),
    }
}

/// Whether `r` is what checking the arguments against the declaration
/// gives: the error that [`arguments_error`] names, or success where it
/// names none.
pub open spec fn checked_against_declaration(
    parameters: Seq<DeclaredView>,
    args: Seq<ArgDefinitionView>,
    directive: Seq<char>,
    r: Result<(), LoomError>,
) -> bool {
    match arguments_error(parameters, args, directive) {
        Some(e) => r is Err && r->Err_0@ == e,
        None => r is Ok,
    }
}

/// Checks the arguments of a call against the declared parameters.
pub fn validate_arguments(
    args: &Vec<ArgDefinition>,
    parameters: &Vec<ParameterDefinition>,
    directive_name: &str,
) -> (r: Result<(), LoomError>)
    ensures
        match arguments_error(views(parameters@), views(args@), directive_name@) {
            Some(e) => r is Err && r->Err_0@ == e,
            None => r is Ok,
        },
{
    match determine_argument_type(args) {
        Err(e) => Err(e),
        Ok(ArgumentType::Positional) => validate_positional_arguments(args, parameters, directive_name),
        Ok(ArgumentType::Named) => validate_named_arguments(args, parameters, directive_name),
    }
}

/// The message that opens every error about the limits of a parameter.
pub open spec fn about(parameter: Seq<char>) -> Seq<char> {
    "Parameter '"@ + parameter + "': "@
}

/// What is wrong with the limits of a parameter apart from the order of its
/// value limits, if anything: limits on the length for a type other than
/// `String` and `Array`; limits on the value for a type other than `Number`;
/// a pattern for a type other than `String`; a least length above the
/// greatest. The first of these that applies is reported.
pub open spec fn rules_error(rules: ValidationRules, parameter: Seq<char>, param_type: TypeView) -> Option<
    ErrorView,
> {
    if (rules.min_length is Some || rules.max_length is Some) && !(param_type is String
        || param_type is Array) {
        Some(
            invalid(
                about(parameter)
                    + "min_length/max_length can only be used with String or Array types"@,
            ),
        )
    } else if (rules.min_value is Some || rules.max_value is Some) && !(param_type is Number) {
        Some(invalid(about(parameter) + "min_value/max_value can only be used with Number type"@))
    } else if rules.pattern is Some && !(param_type is String) {
        Some(invalid(about(parameter) + "pattern validation can only be used with String type"@))
    } else if rules.min_length is Some && rules.max_length is Some && rules.min_length->0
        > rules.max_length->0 {
        Some(
            invalid(
                about(parameter) + "min_length ("@ + nat_text(rules.min_length->0 as nat)
                    + ") cannot be greater than max_length ("@ + nat_text(
                    rules.max_length->0 as nat,
                ) + ")"@,
            ),
        )
    } else {
        None
    }
}

/// Whether the least value that the limits allow is above the greatest.
pub open spec fn values_inverted(rules: ValidationRules) -> bool {
    rules.min_value is Some && rules.max_value is Some && rules.max_value->0.below(
        rules.min_value->0,
    )
}

/// The error for a least value above the greatest, with the two values as
/// they are shown.
pub open spec fn inverted_values(
    parameter: Seq<char>,
    least: Seq<char>,
    greatest: Seq<char>,
) -> ErrorView {
    invalid(
        about(parameter) + "min_value ("@ + least + ") cannot be greater than max_value ("@
            + greatest + ")"@,
    )
}

/// Whether `e` is the error for the inverted value limits of `rules`, with
/// the two limits shown as `floats` renders them.
pub open spec fn shows_inverted<F: FloatArithmetic>(
    floats: &F,
    rules: ValidationRules,
    parameter: Seq<char>,
    e: ErrorView,
) -> bool {
    exists|least: String, greatest: String|
        call_ensures(F::render, (floats, rules.min_value->0), least) && call_ensures(
            F::render,
            (floats, rules.max_value->0),
            greatest,
        ) && e == #[trigger] inverted_values(parameter, least@, greatest@)
}

fn rule_failure(param_name: &str, rest: &str) -> (r: LoomError)
    ensures
        r@ == invalid(about(param_name@) + rest@),
{
    let mut message = String::from_str("Parameter '");
    message.append(param_name);
    message.append("': ");
    message.append(rest);
    LoomError::validation(message.as_str())
}

/// Checks that the limits of a parameter suit its type and do not
/// contradict each other. The error for a least value above the greatest
/// names the two values as `floats` renders them.
pub fn validate_validation_rules<F: FloatArithmetic>(
    rules: &ValidationRules,
    param_name: &str,
    param_type: &ParameterType,
    floats: &F,
) -> (r: Result<(), LoomError>)
    ensures
        match rules_error(*rules, param_name@, param_type@) {
            Some(e) => r is Err && r->Err_0@ == e,
            None => if values_inverted(*rules) {
                r is Err && shows_inverted(floats, *rules, param_name@, r->Err_0@)
            } else {
                r is Ok
            },
        },
{
    if rules.min_length.is_some() || rules.max_length.is_some() {
        match param_type {
            ParameterType::String => {},
            ParameterType::Array(_) => {},
            _ => {
                return Err(
                    rule_failure(
                        param_name,
                        "min_length/max_length can only be used with String or Array types",
                    ),
                );
            },
        }
    }
    if rules.min_value.is_some() || rules.max_value.is_some() {
        match param_type {
            ParameterType::Number => {},
            _ => {
                return Err(
                    rule_failure(param_name, "min_value/max_value can only be used with Number type"),
                );
            },
        }
    }
    if rules.pattern.is_some() {
        match param_type {
            ParameterType::String => {},
            _ => {
                return Err(
                    rule_failure(param_name, "pattern validation can only be used with String type"),
                );
            },
        }
    }
    match (rules.min_length, rules.max_length) {
        (Some(least), Some(greatest)) => {
            if least > greatest {
                let mut rest = String::from_str("min_length (");
                rest.append(unsigned_to_text(least as u64).as_str());
                rest.append(") cannot be greater than max_length (");
                rest.append(unsigned_to_text(greatest as u64).as_str());
                rest.append(")");
                let e = rule_failure(param_name, rest.as_str());
                assert(e@ == rules_error(*rules, param_name@, param_type@)->0) by {
                    assert(about(param_name@) + rest@ =~= about(param_name@) + "min_length ("@
                        + nat_text(least as nat) + ") cannot be greater than max_length ("@
                        + nat_text(greatest as nat) + ")"@);
                }
                return Err(e);
            }
        },
        _ => {},
    }
    match (rules.min_value, rules.max_value) {
        (Some(least), Some(greatest)) => {
            if greatest.less_than(least) {
                let shown_least = floats.render(least);
                let shown_greatest = floats.render(greatest);
                let mut rest = String::from_str("min_value (");
                rest.append(shown_least.as_str());
                rest.append(") cannot be greater than max_value (");
                rest.append(shown_greatest.as_str());
                rest.append(")");
                let e = rule_failure(param_name, rest.as_str());
                assert(e@ == inverted_values(param_name@, shown_least@, shown_greatest@)) by {
                    assert(about(param_name@) + rest@ =~= about(param_name@) + "min_value ("@
                        + shown_least@ + ") cannot be greater than max_value ("@
                        + shown_greatest@ + ")"@);
                }
                return Err(e);
            }
        },
        _ => {},
    }
    Ok(())
}

/// Whether a parameter before place `i` has the name of the one at `i`.
pub open spec fn name_repeated(parameters: Seq<DeclaredView>) -> spec_fn(int) -> bool {
    |i: int|
        0 <= i < parameters.len() && exists|j: int|
            0 <= j < i && (#[trigger] parameters[j]).name == parameters[i].name
}

/// Whether the parameter at place `i` takes all remaining arguments.
pub open spec fn varargs_at(parameters: Seq<DeclaredView>) -> spec_fn(int) -> bool {
    |i: int| 0 <= i < parameters.len() && parameters[i].varargs
}

/// Whether the parameter at place `i` is required, can be given by position
/// and stands behind an optional parameter that can be given by position.
pub open spec fn required_after_optional(parameters: Seq<DeclaredView>) -> spec_fn(int) -> bool {
    |i: int|
        0 <= i < parameters.len() && !parameters[i].varargs && parameters[i].required && exists|
            j: int,
        |
            0 <= j < i && !(#[trigger] parameters[j]).varargs && !parameters[j].required
}

/// Whether the parameter at place `i` has limits that are in error.
pub open spec fn rules_wrong(parameters: Seq<DeclaredView>) -> spec_fn(int) -> bool {
    |i: int|
        0 <= i < parameters.len() && parameters[i].validation_rules is Some && (rules_error(
            parameters[i].validation_rules->0,
            parameters[i].name,
            parameters[i].param_type,
        ) is Some || values_inverted(parameters[i].validation_rules->0))
}

/// Whether no name is declared twice and at most one parameter takes all
/// remaining arguments, which then is the last, optional and without default.
pub open spec fn well_shaped(parameters: Seq<DeclaredView>) -> bool {
    let n = parameters.len();
    let varargs = first_such(varargs_at(parameters), n);
    &&& first_such(name_repeated(parameters), n) == n
    &&& count_such(varargs_at(parameters), n) <= 1
    &&& varargs < n ==> varargs == n - 1 && !parameters[varargs as int].has_default
        && !parameters[varargs as int].required
}

/// What is wrong with the declared parameters, if anything:
///
/// 1. a name that is declared twice;
/// 2. more than one parameter that takes all remaining arguments, or one
///    that is not the last, has a default or is required;
/// 3. a required parameter behind an optional one, among those that can be
///    given by position;
/// 4. limits that are in error.
///
/// The first of these that applies is reported, for the first parameter to
/// which it applies. Where that is a least value above the greatest, the
/// error depends on how the two values are shown: see
/// [`inverted_parameter`].
pub open spec fn definitions_error(parameters: Seq<DeclaredView>) -> Option<ErrorView> {
    let n = parameters.len();
    let repeated = first_such(name_repeated(parameters), n);
    let varargs = first_such(varargs_at(parameters), n);
    let misplaced = first_such(required_after_optional(parameters), n);
    let wrong = first_such(rules_wrong(parameters), n);
    if repeated < n {
        Some(invalid("Duplicate parameter name: '"@ + parameters[repeated as int].name + "'"@))
    } else if count_such(varargs_at(parameters), n) > 1 {
        Some(invalid("Only one parameter can be marked as varargs"@))
    } else if varargs < n && varargs != n - 1 {
        Some(invalid("Varargs parameter must be the last parameter"@))
    } else if varargs < n && parameters[varargs as int].has_default {
        Some(
            invalid(
                "Varargs parameter '"@ + parameters[varargs as int].name
                    + "' cannot have a default value"@,
            ),
        )
    } else if varargs < n && parameters[varargs as int].required {
        Some(
            invalid(
                "Varargs parameter '"@ + parameters[varargs as int].name
                    + "' cannot be marked as required"@,
            ),
        )
    } else if misplaced < n {
        Some(
            invalid(
                "Required parameter '"@ + parameters[misplaced as int].name
                    + "' cannot come after optional parameters in positional context"@,
            ),
        )
    } else if wrong < n {
        rules_error(
            parameters[wrong as int].validation_rules->0,
            parameters[wrong as int].name,
            parameters[wrong as int].param_type,
        )
    } else {
        None
    }
}

/// The place of the first parameter whose limits are in error, where
/// nothing else is wrong with the declared parameters and the error of
/// those limits is a least value above the greatest.
pub open spec fn inverted_parameter(parameters: Seq<DeclaredView>) -> Option<int> {
    let wrong = first_such(rules_wrong(parameters), parameters.len());
    if definitions_error(parameters) is None && wrong < parameters.len() {
        Some(wrong as int)
    } else {
        None
    }
}

fn declared_before(parameters: &Vec<ParameterDefinition>, i: usize) -> (r: bool)
    requires
        i < parameters.len(),
    ensures
        r == name_repeated(views(parameters@))(i as int),
{
    let ghost declared = views(parameters@);
    let mut j: usize = 0;
    while j < i
        invariant
            j <= i < parameters.len(),
            declared == views(parameters@),
            forall|k: int| 0 <= k < j ==> (#[trigger] declared[k]).name != declared[i as int].name,
        decreases i - j,
    {
        assert(declared[j as int] == parameters@[j as int]@);
        assert(declared[i as int] == parameters@[i as int]@);
        if text_eq(parameters[j].name.as_str(), parameters[i].name.as_str()) {
            return true;
        }
        j += 1;
    }
    false
}

/// Checks the declared parameters of a directive, a function or a recipe.
/// The error for a least value above the greatest names the two values as
/// `floats` renders them. A name is looked for among the names before it,
/// one by one: of a set of strings vstd states nothing.
pub fn validate_parameter_definitions<F: FloatArithmetic>(
    parameters: &Vec<ParameterDefinition>,
    floats: &F,
) -> (r: Result<(), LoomError>)
    ensures
        match definitions_error(views(parameters@)) {
            Some(e) => r is Err && r->Err_0@ == e,
            None => match inverted_parameter(views(parameters@)) {
                Some(i) => r is Err && shows_inverted(
                    floats,
                    parameters@[i]@.validation_rules->0,
                    parameters@[i]@.name,
                    r->Err_0@,
                ),
                None => r is Ok,
            },
        },
{
    let ghost declared = views(parameters@);
    let n = parameters.len();
    let mut i: usize = 0;
    while i < n
        invariant
            i <= n,
            n == parameters.len(),
            declared == views(parameters@),
            first_such(name_repeated(declared), i as nat) == i,
        decreases n - i,
    {
        assert(declared[i as int] == parameters@[i as int]@);
        if declared_before(parameters, i) {
            proof {
                first_such_settles(name_repeated(declared), (i + 1) as nat, n as nat);
            }
            let mut message = String::from_str("Duplicate parameter name: '");
            message.append(parameters[i].name.as_str());
            message.append("'");
            return Err(LoomError::validation(message.as_str()));
        }
        i += 1;
    }
    let mut count: usize = 0;
    let mut first: usize = n;
    let mut k: usize = 0;
    while k < n
        invariant
            k <= n,
            n == parameters.len(),
            declared == views(parameters@),
            count == count_such(varargs_at(declared), k as nat),
            count <= k,
            first == if first_such(varargs_at(declared), k as nat) < k {
                first_such(varargs_at(declared), k as nat)
            } else {
                n as nat
            },
        decreases n - k,
    {
        assert(declared[k as int] == parameters@[k as int]@);
        if parameters[k].varargs {
            count += 1;
            if first == n {
                first = k;
            }
        }
        k += 1;
    }
    if count > 1 {
        return Err(LoomError::validation("Only one parameter can be marked as varargs"));
    }
    if first < n {
        assert(declared[first as int] == parameters@[first as int]@);
        if first != n - 1 {
            return Err(LoomError::validation("Varargs parameter must be the last parameter"));
        }
        if parameters[first].default_value.is_some() {
            let mut message = String::from_str("Varargs parameter '");
            message.append(parameters[first].name.as_str());
            message.append("' cannot have a default value");
            return Err(LoomError::validation(message.as_str()));
        }
        if parameters[first].required {
            let mut message = String::from_str("Varargs parameter '");
            message.append(parameters[first].name.as_str());
            message.append("' cannot be marked as required");
            return Err(LoomError::validation(message.as_str()));
        }
    }
    assert(well_shaped(declared));
    let mut found_optional = false;
    let mut m: usize = 0;
    while m < n
        invariant
            m <= n,
            n == parameters.len(),
            declared == views(parameters@),
            well_shaped(declared),
            found_optional == exists|j: int|
                0 <= j < m && !(#[trigger] declared[j]).varargs && !declared[j].required,
            first_such(required_after_optional(declared), m as nat) == m,
        decreases n - m,
    {
        assert(declared[m as int] == parameters@[m as int]@);
        if can_be_positional(&parameters[m]) {
            if !parameters[m].required {
                found_optional = true;
            } else if found_optional {
                proof {
                    assert(required_after_optional(declared)(m as int));
                    first_such_settles(required_after_optional(declared), (m + 1) as nat, n as nat);
                }
                let mut message = String::from_str("Required parameter '");
                message.append(parameters[m].name.as_str());
                message.append("' cannot come after optional parameters in positional context");
                return Err(LoomError::validation(message.as_str()));
            }
        }
        assert(!required_after_optional(declared)(m as int));
        m += 1;
    }
    let mut w: usize = 0;
    while w < n
        invariant
            w <= n,
            n == parameters.len(),
            declared == views(parameters@),
            well_shaped(declared),
            first_such(required_after_optional(declared), n as nat) == n,
            first_such(rules_wrong(declared), w as nat) == w,
        decreases n - w,
    {
        assert(declared[w as int] == parameters@[w as int]@);
        match &parameters[w].validation_rules {
            Some(rules) => {
                match validate_validation_rules(
                    rules,
                    parameters[w].name.as_str(),
                    &parameters[w].param_type,
                    floats,
                ) {
                    Ok(_) => {},
                    Err(e) => {
                        proof {
                            assert(rules_wrong(declared)(w as int));
                            first_such_settles(rules_wrong(declared), (w + 1) as nat, n as nat);
                        }
                        return Err(e);
                    },
                }
            },
            None => {},
        }
        assert(!rules_wrong(declared)(w as int));
        w += 1;
    }
    Ok(())
}

} // verus!

//! What a directive, a function or a recipe declares about its parameters.

use vstd::prelude::*;
use vstd::string::*;
use crate::ast::{ExprView, Expression};
use crate::floats::FloatBits;
use crate::text::texts;
use crate::types::LoomValue;

pub mod directive;
pub mod function;
pub mod parameter;

verus! {

/// An argument as written at a call: by position or by name.
#[derive(Debug, PartialEq)]
pub enum ArgDefinition {
    Positional(Expression),
    Named { name: String, value: Expression },
}

/// An argument as the contracts see it.
pub enum ArgDefinitionView {
    Positional(ExprView),
    Named { name: Seq<char>, value: ExprView },
}

impl View for ArgDefinition {
    type V = ArgDefinitionView;

    open spec fn view(&self) -> ArgDefinitionView {
        match self {
            ArgDefinition::Positional(e) => ArgDefinitionView::Positional(e@),
            ArgDefinition::Named { name, value } => ArgDefinitionView::Named {
                name: name@,
                value: value@,
            },
        }
    }
}

impl Clone for ArgDefinition {
    fn clone(&self) -> (r: Self)
        ensures
            r@ == self@,
    {
        match self {
            ArgDefinition::Positional(e) => ArgDefinition::Positional(e.clone()),
            ArgDefinition::Named { name, value } => ArgDefinition::Named {
                name: name.clone(),
                value: value.clone(),
            },
        }
    }
}


/// Limits on the values that a parameter takes.
#[derive(Debug, PartialEq)]
pub struct ValidationRules {
    pub min_length: Option<usize>,
    pub max_length: Option<usize>,
    /// A regular expression for strings.
    pub pattern: Option<String>,
    pub min_value: Option<FloatBits>,
    pub max_value: Option<FloatBits>,
}

impl ValidationRules {
    /// No limits.
    pub fn none() -> (r: Self)
        ensures
            r.min_length is None,
            r.max_length is None,
            r.pattern is None,
            r.min_value is None,
            r.max_value is None,
    {
        ValidationRules {
            min_length: None,
            max_length: None,
            pattern: None,
            min_value: None,
            max_value: None,
        }
    }
}

/// The types of parameter.
#[derive(Debug, PartialEq)]
pub enum ParameterType {
    String,
    Number,
    Boolean,
    Array(Box<ParameterType>),
    Json,
    /// One of the given names.
    Enum(Vec<String>),
    Any,
}

/// A type of parameter as the contracts see it.
pub enum TypeView {
    String,
    Number,
    Boolean,
    Array(Box<TypeView>),
    Json,
    Enum(Seq<Seq<char>>),
    Any,
}

/// The view of a type of parameter.
pub open spec fn type_view(t: ParameterType) -> TypeView
    decreases t,
{
    match t {
        ParameterType::String => TypeView::String,
        ParameterType::Number => TypeView::Number,
        ParameterType::Boolean => TypeView::Boolean,
        ParameterType::Array(inner) => TypeView::Array(Box::new(type_view(*inner))),
        ParameterType::Json => TypeView::Json,
        ParameterType::Enum(names) => TypeView::Enum(texts(names@)),
        ParameterType::Any => TypeView::Any,
    }
}

impl View for ParameterType {
    type V = TypeView;

    open spec fn view(&self) -> TypeView {
        type_view(*self)
    }
}

impl TypeView {
    /// The name of the type, as messages give it.
    pub open spec fn label(self) -> Seq<char>
        decreases self,
    {
        match self {
            TypeView::String => "String"@,
            TypeView::Number => "Number"@,
            TypeView::Boolean => "Boolean"@,
            TypeView::Array(inner) => "Array("@ + inner.label() + ")"@,
            TypeView::Json => "Json"@,
            TypeView::Enum(_) => "Enum"@,
            TypeView::Any => "Any"@,
        }
    }
}

impl ParameterType {
    /// The name of the type.
    pub fn to_text(&self) -> (r: String)
        ensures
            r@ == self@.label(),
        decreases self,
    {
        match self {
            ParameterType::String => String::from_str("String"),
            ParameterType::Number => String::from_str("Number"),
            ParameterType::Boolean => String::from_str("Boolean"),
            ParameterType::Array(inner) => {
                let mut out = String::from_str("Array(");
                out.append(inner.to_text().as_str());
                out.append(")");
                out
            },
            ParameterType::Json => String::from_str("Json"),
            ParameterType::Enum(_) => String::from_str("Enum"),
            ParameterType::Any => String::from_str("Any"),
        }
    }
}

/// A parameter that a directive, a function or a recipe declares.
#[derive(Debug, PartialEq)]
pub struct ParameterDefinition {
    pub name: String,
    pub description: String,
    pub param_type: ParameterType,
    pub default_value: Option<LoomValue>,
    pub required: bool,
    pub allow_named_parameter: bool,
    /// Whether the parameter takes all remaining arguments.
    pub varargs: bool,
    pub deprecated: bool,
    pub validation_rules: Option<ValidationRules>,
}

/// A declared parameter as the contracts see it.
pub struct DeclaredView {
    pub name: Seq<char>,
    pub param_type: TypeView,
    pub has_default: bool,
    pub required: bool,
    pub allow_named_parameter: bool,
    pub varargs: bool,
    pub validation_rules: Option<ValidationRules>,
}

impl View for ParameterDefinition {
    type V = DeclaredView;

    open spec fn view(&self) -> DeclaredView {
        DeclaredView {
            name: self.name@,
            param_type: self.param_type@,
            has_default: self.default_value is Some,
            required: self.required,
            allow_named_parameter: self.allow_named_parameter,
            varargs: self.varargs,
            validation_rules: self.validation_rules,
        }
    }
}

impl ParameterDefinition {
    /// A required parameter that may be given by name, without description,
    /// default or limits.
    pub fn new(param_type: ParameterType, name: &str) -> (r: Self)
        ensures
            r@ == (DeclaredView {
                name: name@,
                param_type: param_type@,
                has_default: false,
                required: true,
                allow_named_parameter: true,
                varargs: false,
                validation_rules: None,
            }),
    {
        ParameterDefinition {
            name: String::from_str(name),
            description: String::new(),
            param_type,
            default_value: None,
            required: true,
            allow_named_parameter: true,
            varargs: false,
            deprecated: false,
            validation_rules: None,
        }
    }
}

} // verus!

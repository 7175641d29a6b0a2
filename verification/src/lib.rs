//! Execution core of a workflow automation language: definitions made of
//! blocks of commands and calls, the interceptors that surround them, and the
//! ordered chains in which both are run.

pub mod ast;
pub mod binding;
pub mod context;
pub mod definition;
pub mod dictionary;
pub mod directives;
pub mod error;
pub mod evaluation;
pub mod event;
pub mod floats;
pub mod interceptor;
pub mod text;
pub mod types;
pub mod views;

use vstd::prelude::*;
use crate::ast::{ExprView, Expression};
use crate::types::optional_expression;

verus! {

/// An argument handed to a definition: the name of the parameter and the
/// expression for its value, if one was written.
#[derive(Debug, PartialEq)]
pub struct InputArg {
    pub name: String,
    pub value: Option<Expression>,
}

/// An argument as the contracts see it.
pub struct InputArgView {
    pub name: Seq<char>,
    pub value: Option<ExprView>,
}

impl View for InputArg {
    type V = InputArgView;

    open spec fn view(&self) -> InputArgView {
        InputArgView { name: self.name@, value: optional_expression(self.value) }
    }
}

impl Clone for InputArg {
    fn clone(&self) -> (r: Self)
        ensures
            r@ == self@,
    {
        InputArg {
            name: self.name.clone(),
            value: match &self.value {
                Some(e) => Some(e.clone()),
                None => None,
            },
        }
    }
}

impl InputArg {
    pub fn new(name: String, value: Option<Expression>) -> (r: Self)
        ensures
            r.name == name,
            r.value == value,
    {
        InputArg { name, value }
    }
}

} // verus!

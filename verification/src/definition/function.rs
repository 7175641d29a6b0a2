//! The declaration of a function.

use vstd::prelude::*;
use crate::ast::DirectiveCall;
use crate::definition::{ArgDefinition, ParameterDefinition};
use crate::dictionary::Dictionary;
use crate::error::LoomError;
use crate::types::LoomValue;

verus! {

/// What a function declares about itself.
pub trait FunctionDefinition {
    fn name(&self) -> String;

    fn description(&self) -> String;

    fn parameters(&self) -> Vec<ParameterDefinition>;

    /// Checks the arguments of a call: all arguments are accepted, unless
    /// the function checks them in its own way.
    fn validate_parameters(&self, args: &Vec<ArgDefinition>) -> (r: Result<(), LoomError>)
        default_ensures
            r is Ok,
    {
        Ok(())
    }

    /// Reads the arguments of `call` into the values that the function is
    /// run with, each under the name of its parameter.
    fn parse_args(&self, call: &DirectiveCall) -> Result<Dictionary<LoomValue>, LoomError>;
}

} // verus!

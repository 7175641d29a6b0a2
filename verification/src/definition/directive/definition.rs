//! The declaration of a directive.

use vstd::prelude::*;
use crate::definition::directive::scope::DirectiveScope;
use crate::definition::parameter::{
    argument_type, checked_against_declaration, validate_arguments,
};
use crate::definition::{ArgDefinition, ParameterDefinition};
use crate::error::LoomError;
use crate::views::views;

verus! {

/// What a directive declares about itself.
pub trait DirectiveDefinition {
    /// The name of the directive, without the `@`.
    fn name(&self) -> String;

    fn description(&self) -> String;

    /// Where the directive may be attached.
    fn scope(&self) -> Vec<DirectiveScope>;

    fn parameters(&self) -> Vec<ParameterDefinition>;

    /// Checks the arguments of a call. Unless a directive checks them in its
    /// own way, they are checked against the parameters that the directive
    /// declares, under its name, as [`validate_arguments`] says; arguments
    /// that mix the two ways of writing them are refused whatever the
    /// directive declares.
    fn validate_parameters(&self, args: &Vec<ArgDefinition>) -> (r: Result<(), LoomError>)
        default_ensures
            exists|parameters: Vec<ParameterDefinition>, name: String|
                {
                    &&& call_ensures(Self::parameters, (self,), parameters)
                    &&& call_ensures(Self::name, (self,), name)
                    &&& #[trigger] checked_against_declaration(
                        views(parameters@),
                        views(args@),
                        name@,
                        r,
                    )
                },
            argument_type(views(args@)) matches Err(e) ==> r is Err && r->Err_0@ == e,
    {
        let parameters = self.parameters();
        let name = self.name();
        let r = validate_arguments(args, &parameters, name.as_str());
        assert(checked_against_declaration(views(parameters@), views(args@), name@, r));
        r
    }

    /// Whether the directive may stand more than once on one element: it may
    /// not, unless the directive says otherwise.
    fn repeatable(&self) -> (r: bool)
        default_ensures
            !r,
    {
        false
    }

    /// The directives that may not stand beside this one: none, unless the
    /// directive names some.
    fn conflicts_with(&self) -> (r: Vec<String>)
        default_ensures
            r@ == Seq::<String>::empty(),
    {
        Vec::new()
    }
}

} // verus!

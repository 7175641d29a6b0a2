//! Where a directive may be attached.

use vstd::prelude::*;

verus! {

/// The level at which a directive may be attached.
#[derive(Debug, Clone, Copy, PartialEq, Eq, Structural, Hash)]
pub enum DirectiveScope {
    /// A recipe, a job or a pipeline.
    Definition,
    /// A statement.
    Statement,
    /// A stage of a pipeline.
    Stage,
    /// A whole file.
    Global,
    /// A single command.
    Command,
    /// A block of commands.
    Block,
}

} // verus!

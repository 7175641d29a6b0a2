//! What an execution and what a hook hand back.

use vstd::prelude::*;
use vstd::string::*;
use crate::dictionary::{clone_text_dictionary, text_map, Dictionary};
use crate::text::{int_text, int_to_text};
use crate::types::{clone_optional_text, optional_text};

verus! {

/// The result of an execution.
#[derive(Debug, PartialEq)]
pub struct ExecutionResult {
    pub output: Option<String>,
    pub exit_code: Option<i32>,
    pub metadata: Dictionary<String>,
}

/// A result as the contracts see it.
pub struct ResultView {
    pub output: Option<Seq<char>>,
    pub exit_code: Option<i32>,
    pub metadata: Map<Seq<char>, Seq<char>>,
}

impl View for ExecutionResult {
    type V = ResultView;

    open spec fn view(&self) -> ResultView {
        ResultView {
            output: optional_text(self.output),
            exit_code: self.exit_code,
            metadata: text_map(self.metadata),
        }
    }
}

impl Clone for ExecutionResult {
    fn clone(&self) -> (r: Self)
        ensures
            r@ == self@,
    {
        ExecutionResult {
            output: clone_optional_text(&self.output),
            exit_code: self.exit_code,
            metadata: clone_text_dictionary(&self.metadata),
        }
    }
}

/// What a dry run reports for a command: what it would have executed, with
/// exit code 0.
pub open spec fn dry_run_view(command: Seq<char>) -> ResultView {
    ResultView {
        output: Some("DRY RUN: Would execute: "@ + command),
        exit_code: Some(0i32),
        metadata: Map::empty(),
    }
}

/// The result of a command that ran: its output, unless it wrote nothing,
/// its exit code, and both the command and the exit code as metadata.
pub open spec fn finished_view(command: Seq<char>, exit_code: Option<i32>, stdout: Seq<char>) -> ResultView {
    ResultView {
        output: if stdout.len() == 0 {
            None
        } else {
            Some(stdout)
        },
        exit_code,
        metadata: match exit_code {
            Some(code) => Map::empty().insert("command"@, command).insert(
                "exit_code"@,
                int_text(code as int),
            ),
            None => Map::empty().insert("command"@, command),
        },
    }
}

/// The result of a command that could not be started: no output, no exit
/// code, and the command and the system's message as metadata.
pub open spec fn not_started_view(command: Seq<char>, error: Seq<char>) -> ResultView {
    ResultView {
        output: None,
        exit_code: None,
        metadata: Map::empty().insert("command"@, command).insert("system_error"@, error),
    }
}

impl ExecutionResult {
    /// A result without output, exit code or metadata.
    pub fn empty() -> (r: Self)
        ensures
            r@ == (ResultView { output: None, exit_code: None, metadata: Map::empty() }),
    {
        let r = ExecutionResult { output: None, exit_code: None, metadata: Dictionary::new() };
        assert(text_map(r.metadata) =~= Map::empty());
        r
    }

    /// What a dry run reports for `command`.
    pub fn dry_run(command: &str) -> (r: Self)
        ensures
            r@ == dry_run_view(command@),
    {
        let mut text = String::from_str("DRY RUN: Would execute: ");
        text.append(command);
        let r = ExecutionResult { output: Some(text), exit_code: Some(0), metadata: Dictionary::new() };
        assert(text_map(r.metadata) =~= Map::empty());
        r
    }

    /// The result of a command that ran.
    pub fn finished(command: &str, exit_code: Option<i32>, stdout: String) -> (r: Self)
        ensures
            r@ == finished_view(command@, exit_code, stdout@),
    {
        let mut metadata: Dictionary<String> = Dictionary::new();
        metadata.insert(String::from_str("command"), String::from_str(command));
        match exit_code {
            Some(code) => {
                metadata.insert(String::from_str("exit_code"), int_to_text(code as i64));
            },
            None => {},
        }
        let output = if stdout.as_str().unicode_len() == 0 {
            None
        } else {
            Some(stdout)
        };
        let r = ExecutionResult { output, exit_code, metadata };
        assert(r@.metadata =~= finished_view(command@, exit_code, stdout@).metadata);
        r
    }

    /// The result of a command that could not be started.
    pub fn not_started(command: &str, error: &str) -> (r: Self)
        ensures
            r@ == not_started_view(command@, error@),
    {
        let mut metadata: Dictionary<String> = Dictionary::new();
        metadata.insert(String::from_str("command"), String::from_str(command));
        metadata.insert(String::from_str("system_error"), String::from_str(error));
        let r = ExecutionResult { output: None, exit_code: None, metadata };
        assert(r@.metadata =~= not_started_view(command@, error@).metadata);
        r
    }
}

/// What a hook handler asks for.
#[derive(Debug, PartialEq)]
pub enum HookResult {
    /// Go on.
    Continue,
    /// Go on, with these entries written to the metadata of the run.
    ModifyContext { changes: Dictionary<String> },
    /// Stop, for this reason.
    Block { reason: String },
    /// The caller should try again, up to so many times.
    Retry { max_attempts: u32 },
}

} // verus!
